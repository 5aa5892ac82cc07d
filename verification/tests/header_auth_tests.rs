use qdrust::config::{HeaderAuthConfig, IpAddress};
use qdrust::header_auth::{
    extract_header_identity, header_gate, header_outcome, header_value, parse_groups,
    source_is_trusted, strip_identity_headers, HeaderGate, HeaderOutcome,
};

fn cfg() -> HeaderAuthConfig {
    HeaderAuthConfig::new()
}

fn set_test_header(headers: &mut Vec<(String, String)>, name: &str, value: &str) {
    headers.retain(|(k, _)| !k.eq_ignore_ascii_case(name));
    headers.push((name.to_string(), value.to_string()));
}

fn v4(a: u8, b: u8, c: u8, d: u8) -> IpAddress {
    IpAddress::V4(u32::from_be_bytes([a, b, c, d]))
}

#[test]
fn groups_split_and_trim() {
    let cfg = cfg();
    assert_eq!(parse_groups("admin, user ,  root", &cfg.groups_separator), vec!["admin", "user", "root"]);
    assert_eq!(parse_groups("admin,,user", ","), vec!["admin", "user"]);
    assert_eq!(parse_groups("   ", ","), Vec::<String>::new());
    assert_eq!(parse_groups("a|b| c", "|"), vec!["a", "b", "c"]);
}

#[test]
fn trusted_source_membership() {
    let trusted = vec![v4(127, 0, 0, 1), v4(10, 0, 0, 1)];
    assert!(source_is_trusted(v4(127, 0, 0, 1), &trusted));
    assert!(!source_is_trusted(v4(192, 168, 1, 5), &trusted));
}

#[test]
fn extract_requires_user_header() {
    let cfg = cfg();
    let mut headers = Vec::new();
    assert!(extract_header_identity(&headers, &cfg).is_none());

    set_test_header(&mut headers, "Remote-Email", "a@example.com");
    assert!(extract_header_identity(&headers, &cfg).is_none());

    set_test_header(&mut headers, "Remote-User", "alice");
    set_test_header(&mut headers, "Remote-Groups", "admin,user");
    let id = extract_header_identity(&headers, &cfg).unwrap();
    assert_eq!(id.username, "alice");
    assert_eq!(id.email.as_deref(), Some("a@example.com"));
    assert_eq!(id.groups, vec!["admin", "user"]);
}

#[test]
fn extract_respects_custom_header_names() {
    let cfg = HeaderAuthConfig {
        user_header: "X-Forwarded-User".into(),
        email_header: "X-Forwarded-Email".into(),
        groups_header: "X-Forwarded-Groups".into(),
        groups_separator: ";".into(),
        ..HeaderAuthConfig::new()
    };
    let mut headers = Vec::new();
    set_test_header(&mut headers, "X-Forwarded-User", "bob");
    set_test_header(&mut headers, "X-Forwarded-Groups", "g1; g2");
    let id = extract_header_identity(&headers, &cfg).unwrap();
    assert_eq!(id.username, "bob");
    assert_eq!(id.groups, vec!["g1", "g2"]);
}

#[test]
fn strip_removes_identity_headers() {
    let cfg = cfg();
    let mut headers = Vec::new();
    set_test_header(&mut headers, "Remote-User", "mallory");
    set_test_header(&mut headers, "Remote-Email", "m@x.com");
    set_test_header(&mut headers, "X-Other", "keep");
    strip_identity_headers(&mut headers, &cfg);
    assert!(header_value(&headers, "Remote-User").is_none());
    assert!(header_value(&headers, "Remote-Email").is_none());
    assert!(header_value(&headers, "Remote-Groups").is_none());
    assert!(header_value(&headers, "X-Other").is_some());
}

#[test]
fn header_names_match_without_regard_to_case() {
    let headers = vec![("remote-user".to_string(), " alice ".to_string())];
    assert_eq!(header_value(&headers, "Remote-User").as_deref(), Some(" alice "));
    let id = extract_header_identity(&headers, &cfg()).unwrap();
    assert_eq!(id.username, "alice");
    assert!(extract_header_identity(&vec![("Remote-User".to_string(), "  ".to_string())], &cfg()).is_none());
}

#[test]
fn the_gate_sorts_requests_by_source() {
    let mut cfg = cfg();
    cfg.trusted_proxies = vec![v4(10, 0, 0, 1)];
    let headers = vec![("Remote-User".to_string(), "alice".to_string())];

    assert!(matches!(header_gate(None, "/api/v1/tasks", &headers, None), HeaderGate::PassThrough));
    assert!(matches!(header_gate(Some(&cfg), "/api/v1/auth/login", &headers, None), HeaderGate::PassThrough));
    assert!(matches!(header_gate(Some(&cfg), "/api/v1/tasks", &Vec::new(), None), HeaderGate::PassThrough));
    match header_gate(Some(&cfg), "/api/v1/tasks", &headers, Some(v4(10, 0, 0, 1))) {
        HeaderGate::Resolve(id) => assert_eq!(id.username, "alice"),
        other => panic!("unexpected {other:?}"),
    }
    assert!(matches!(
        header_gate(Some(&cfg), "/api/v1/tasks", &headers, Some(v4(192, 168, 0, 9))),
        HeaderGate::RefuseUntrusted(_)
    ));
    assert!(matches!(header_gate(Some(&cfg), "/api/v1/tasks", &headers, None), HeaderGate::RefuseUntrusted(_)));
    cfg.trusted_proxy_required = false;
    assert!(matches!(header_gate(Some(&cfg), "/api/v1/tasks", &headers, None), HeaderGate::StripAndContinue));
}

#[test]
fn a_resolved_identity_reuses_or_replaces_the_session() {
    assert_eq!(header_outcome(Some(1), Some(1), None), HeaderOutcome::Continue);
    assert_eq!(header_outcome(Some(1), Some(2), None), HeaderOutcome::Establish { revoke_old: true });
    assert_eq!(header_outcome(Some(1), None, None), HeaderOutcome::Establish { revoke_old: false });
    assert_eq!(header_outcome(None, Some(2), Some("email_conflict")), HeaderOutcome::Continue);
    assert_eq!(header_outcome(None, None, Some("email_conflict")), HeaderOutcome::Refuse("email_conflict".into()));
    assert_eq!(header_outcome(None, None, None), HeaderOutcome::Refuse("header_identity_refused".into()));
}

#[test]
fn untrusted_source_with_headers_is_refused_with_403() {
    let cfg = cfg();
    let headers = vec![("Remote-User".to_string(), "alice".to_string())];
    let gate = header_gate(Some(&cfg), "/api/v1/tasks", &headers, Some(v4(192, 168, 1, 5)));
    let refusal = gate.refusal().unwrap();
    assert_eq!(refusal.status(), 403);
    assert_eq!(refusal.code(), "untrusted_proxy_header");
    assert!(header_gate(None, "/api/v1/tasks", &headers, None).refusal().is_none());

    let refused = header_outcome(None, None, Some("email_conflict"));
    assert_eq!(refused.refusal().unwrap().code(), "header_identity_refused");
    assert!(header_outcome(Some(1), None, None).refusal().is_none());
}
