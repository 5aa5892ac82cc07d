use qdrust::api::{runtime_settings, ALLOW_PRIVATE_NETWORK_SETTING};
use qdrust::outbound::{explain_refusal, OutboundHttp, OutboundPolicy, BLOCKED};

#[test]
fn the_policy_carries_both_switches_and_the_configured_timeout() {
    let mut settings = runtime_settings();
    let outbound = OutboundHttp::new(7);
    assert_eq!(outbound.policy(&settings).timeout_secs, 7);
    assert!(!outbound.policy(&settings).allow_private_network);
    assert!(!outbound.policy(&settings).allow_invalid_certificates);

    settings.allow_private_network = true;
    settings.allow_invalid_certificates = true;
    assert!(outbound.policy(&settings).allow_private_network);
    assert!(outbound.policy(&settings).allow_invalid_certificates);
}

#[test]
fn the_policy_defaults_to_closed() {
    let policy = OutboundPolicy::closed(30);
    assert!(!policy.allow_private_network);
    assert!(!policy.allow_invalid_certificates);
    assert!(policy.proxy.is_none());
    assert_eq!(OutboundHttp::standalone().timeout_secs, 30);
}

#[test]
fn a_loopback_refusal_names_the_switch() {
    let chain = format!("error sending request: {BLOCKED}");
    let explained = explain_refusal("http://127.0.0.1:9/", false, &chain);
    assert!(explained.contains(ALLOW_PRIVATE_NETWORK_SETTING));
    assert!(explained.starts_with("http://127.0.0.1:9/ is on a private or special-use network"));
}

#[test]
fn a_failure_that_is_not_the_guard_keeps_its_own_context() {
    let explained = explain_refusal("not a url", false, "invalid rendered URL");
    assert_eq!(explained, "cannot reach not a url");
    let allowed = explain_refusal("http://127.0.0.1:9/", true, BLOCKED);
    assert_eq!(allowed, "cannot reach http://127.0.0.1:9/");
}
