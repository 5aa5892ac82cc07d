use qdrust::accounts::{
    login_decision, login_rate_key, public_base_url, reset_applies, reset_link, reset_mail,
    reset_reply, verification_mail, verify_link, LoginDecision,
};
use qdrust::email::{EmailClient, EmailConfig, EmailError};
use qdrust::ga::{inject_ga, is_html, InjectGaLayer};
use qdrust::json::JsonValue;

#[test]
fn login_keys_ignore_case_and_padding() {
    assert_eq!(login_rate_key("  Alice "), "alice");
}

#[test]
fn a_login_is_decided_in_order() {
    assert_eq!(login_decision(false, Some((false, true)), true, false), LoginDecision::RateLimited);
    assert_eq!(login_decision(true, None, true, false), LoginDecision::Refused);
    assert_eq!(login_decision(true, Some((true, true)), true, false), LoginDecision::Refused);
    assert_eq!(login_decision(true, Some((false, true)), false, false), LoginDecision::Refused);
    assert_eq!(login_decision(true, Some((false, false)), true, true), LoginDecision::Unverified);
    assert_eq!(login_decision(true, Some((false, false)), true, false), LoginDecision::Accepted);
    assert_eq!(LoginDecision::RateLimited.error().unwrap().status(), 429);
    assert_eq!(LoginDecision::Refused.error().unwrap().code(), "invalid_credentials");
    assert_eq!(LoginDecision::Unverified.error().unwrap().code(), "email_not_verified");
    assert!(LoginDecision::Accepted.error().is_none());
}

#[test]
fn account_links_and_mails() {
    let base = public_base_url(None);
    assert_eq!(base, "http://localhost:8923");
    assert_eq!(public_base_url(Some("https://qd.example.com")), "https://qd.example.com");
    assert_eq!(verify_link(&base, "t1"), "http://localhost:8923/verify-email?token=t1");
    assert_eq!(reset_link(&base, "t2"), "http://localhost:8923/reset-password?token=t2");
    assert!(verification_mail("alice", "L").starts_with("Hello alice,\n\nVerify your email"));
    assert!(reset_mail("alice", "L").ends_with("The link expires in 1 hour.\n"));
}

#[test]
fn a_reset_reply_only_reveals_the_token_without_mail() {
    assert!(reset_applies(Some(false)));
    assert!(!reset_applies(Some(true)));
    assert!(!reset_applies(None));

    let quiet = reset_reply(true, Some((99, "tok", "link")));
    assert_eq!(quiet, JsonValue::Object(vec![("sent".to_string(), JsonValue::Bool(true))]));
    let local = reset_reply(false, Some((99, "tok", "link")));
    assert_eq!(local.get("sent"), Some(&JsonValue::Bool(true)));
    assert_eq!(local.get("expires_at"), Some(&JsonValue::Number("99".to_string())));
    assert_eq!(local.get("reset_token"), Some(&JsonValue::Str("tok".to_string())));
    assert_eq!(local.get("reset_url"), Some(&JsonValue::Str("link".to_string())));
    let none = reset_reply(false, None);
    assert_eq!(none, JsonValue::Object(vec![("sent".to_string(), JsonValue::Bool(true))]));
}

fn env(pairs: &[(&str, &str)]) -> Vec<(String, String)> {
    pairs.iter().map(|(k, v)| (k.to_string(), v.to_string())).collect()
}

#[test]
fn mail_settings_come_from_the_environment() {
    let off = EmailConfig::from_env(&env(&[]));
    assert!(!off.enabled());
    let client = EmailClient::new(off).unwrap();
    assert!(client.plan("a@b.c", None, "s", "b").is_none());

    let missing_from = EmailConfig::from_env(&env(&[("QDRUST_SMTP_HOST", "smtp.example.com")]));
    let refused = EmailClient::new(missing_from).err().unwrap();
    assert_eq!(refused, EmailError::MissingFrom);
    assert_eq!(refused.message(), "email requires QDRUST_SMTP_FROM when SMTP is enabled");

    let on = EmailConfig::from_env(&env(&[
        ("QDRUST_SMTP_HOST", "smtp.example.com"),
        ("QDRUST_SMTP_FROM", "qd@example.com"),
        ("QDRUST_SMTP_PORT", "2525"),
        ("QDRUST_SMTP_USERNAME", "u"),
        ("QDRUST_SMTP_PASSWORD", "p"),
    ]));
    assert!(on.enabled());
    let client = EmailClient::new(on).unwrap();
    let plan = client.plan("ops@example.com", None, "subject", "body").unwrap();
    assert_eq!(plan.host, "smtp.example.com");
    assert_eq!(plan.port, 2525);
    assert_eq!(plan.from, "qd@example.com");
    assert_eq!(plan.to, "ops@example.com");
    assert_eq!(plan.credentials, Some(("u".to_string(), "p".to_string())));
}

#[test]
fn analytics_go_before_the_end_of_the_head() {
    assert!(is_html(Some("text/html; charset=utf-8")));
    assert!(!is_html(Some("application/json")));
    assert!(!is_html(None));
    let page = inject_ga("<html><head></head><body></body></html>", "G-1");
    assert!(page.starts_with("<html><head><script async src=\"https://www.googletagmanager.com/gtag/js?id=G-1\">"));
    assert!(page.ends_with("</head><body></body></html>"));
    let bare = inject_ga("<p>x</p>", "G-1");
    assert!(bare.starts_with("<p>x</p>\n<script"));

    let layer = InjectGaLayer::new();
    assert!(layer.service(None).call(Some("text/html"), "<head></head>").is_none());
    let svc = layer.service(Some("G-2".to_string()));
    assert!(svc.call(Some("application/json"), "{}").is_none());
    assert!(svc.call(Some("text/html"), "<head></head>").unwrap().contains("G-2"));
}
