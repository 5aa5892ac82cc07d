use qdrust::api::{
    api_not_found,
    apply_file_settings, apply_runtime_setting, callback_location, clear_cookies, cookie,
    ensure_local_login_allowed, ensure_setting_key, merged_cookie_header, page_of, request_id,
    require_admin_role, require_csrf, run_page_limit, session_cookies, template_in_use, ApiError,
    AuthConfig, RuntimeSettings, ALLOW_INVALID_CERTIFICATES_SETTING, ALLOW_PRIVATE_NETWORK_SETTING,
};
use qdrust::api::{template_delete_answer, template_delete_check, TemplateDeleteStep};
use qdrust::auth::token_hash;
use qdrust::json::JsonValue;
use qdrust::model::{AuthenticatedSession, IssuedSession, User};

fn number(n: i64) -> JsonValue {
    JsonValue::Number(n.to_string())
}

#[test]
fn every_runtime_setting_key_maps_to_its_field() {
    let mut runtime = RuntimeSettings::default();
    apply_runtime_setting(&mut runtime, "require_email_verification", &JsonValue::Bool(true));
    apply_runtime_setting(&mut runtime, "ga_key", &JsonValue::Str("G-TEST".into()));
    apply_runtime_setting(&mut runtime, "logs.retention_days", &number(30));
    apply_runtime_setting(&mut runtime, ALLOW_PRIVATE_NETWORK_SETTING, &JsonValue::Bool(true));
    apply_runtime_setting(&mut runtime, ALLOW_INVALID_CERTIFICATES_SETTING, &JsonValue::Bool(true));

    assert!(runtime.require_email_verification);
    assert_eq!(runtime.ga_key.as_deref(), Some("G-TEST"));
    assert_eq!(runtime.log_retention_days, 30);
    assert!(runtime.allow_private_network);
    assert!(runtime.allow_invalid_certificates);
}

#[test]
fn the_two_relaxation_switches_stay_independent() {
    let mut runtime = RuntimeSettings::default();
    apply_runtime_setting(&mut runtime, ALLOW_PRIVATE_NETWORK_SETTING, &JsonValue::Bool(true));
    assert!(runtime.allow_private_network);
    assert!(!runtime.allow_invalid_certificates);

    let mut runtime = RuntimeSettings::default();
    apply_runtime_setting(&mut runtime, ALLOW_INVALID_CERTIFICATES_SETTING, &JsonValue::Bool(true));
    assert!(runtime.allow_invalid_certificates);
    assert!(!runtime.allow_private_network);
}

#[test]
fn the_relaxation_switches_fail_closed_on_a_malformed_value() {
    for key in [ALLOW_PRIVATE_NETWORK_SETTING, ALLOW_INVALID_CERTIFICATES_SETTING] {
        for value in [
            JsonValue::Str("true".into()),
            number(1),
            JsonValue::Null,
            JsonValue::Object(Vec::new()),
        ] {
            let mut runtime = RuntimeSettings::default();
            apply_runtime_setting(&mut runtime, key, &value);
            assert!(
                !runtime.allow_private_network && !runtime.allow_invalid_certificates,
                "{key} = {value:?} must not enable anything"
            );
        }
    }
}

#[test]
fn an_unknown_setting_changes_nothing() {
    let mut runtime = RuntimeSettings::default();
    apply_runtime_setting(&mut runtime, "security.allow_everything", &JsonValue::Bool(true));
    assert!(!runtime.allow_private_network && !runtime.allow_invalid_certificates);
    assert!(!runtime.require_email_verification);
    apply_runtime_setting(&mut runtime, "logs.retention_days", &number(-3));
    assert_eq!(runtime.log_retention_days, 0);
}

#[test]
fn a_config_file_reloads_its_settings() {
    let mut runtime = RuntimeSettings::default();
    let file = JsonValue::Object(vec![
        ("require_email_verification".into(), JsonValue::Bool(true)),
        ("log_retention_days".into(), number(14)),
        ("ga_key".into(), JsonValue::Str("G-1".into())),
    ]);
    apply_file_settings(&mut runtime, &file);
    assert!(runtime.require_email_verification);
    assert_eq!(runtime.log_retention_days, 14);
    assert_eq!(runtime.ga_key.as_deref(), Some("G-1"));
    assert!(!runtime.allow_private_network);
}

fn user(role: &str) -> User {
    User {
        id: 1,
        username: "alice".into(),
        role: role.into(),
        disabled: false,
        email: None,
        email_verified: false,
        created_at: 0,
        updated_at: 0,
    }
}

#[test]
fn errors_carry_status_code_and_message() {
    let e = template_in_use(3);
    assert_eq!(e.status(), 409);
    assert_eq!(e.code(), "template_in_use");
    assert_eq!(
        e.public_message(),
        "Template is still used by 3 task(s); delete or re-bind them first"
    );
    let internal = ApiError::Internal("db down".into());
    assert_eq!(internal.status(), 500);
    assert_eq!(internal.public_message(), "An internal error occurred");
    let body = internal.body("req-1");
    assert_eq!(body.get("code"), Some(&JsonValue::Str("internal_error".into())));
    assert_eq!(body.get("request_id"), Some(&JsonValue::Str("req-1".into())));
    assert_eq!(body.get("field_errors"), Some(&JsonValue::Object(Vec::new())));
    assert_eq!(request_id(255), "req-00000000000000ff");
}

#[test]
fn guards_refuse_with_stable_codes() {
    assert!(ensure_setting_key("ga_key").is_ok());
    let refused = ensure_setting_key("").unwrap_err();
    assert_eq!(refused.status(), 422);
    assert_eq!(refused.public_message(), "setting key is invalid");
    assert!(ensure_setting_key(&"k".repeat(129)).is_err());

    let mut auth = AuthConfig::default();
    assert!(ensure_local_login_allowed(&auth).is_ok());
    auth.public.local_login_enabled = false;
    assert_eq!(ensure_local_login_allowed(&auth).unwrap_err().code(), "local_login_disabled");

    let session = |role: &str| AuthenticatedSession { user: user(role), csrf_token_hash: String::new(), expires_at: 0 };
    assert!(require_admin_role(&session("admin")).is_ok());
    assert_eq!(require_admin_role(&session("user")).unwrap_err().code(), "admin_required");
}

#[test]
fn session_cookies_are_strict_and_live_as_long_as_the_session() {
    let issued = IssuedSession { session_token: "s".into(), csrf_token: "c".into(), expires_at: 0 };
    let auth = AuthConfig::default();
    let (a, b) = session_cookies(&issued, &auth);
    assert_eq!(a, "qd_session=s; Path=/; HttpOnly; SameSite=Strict; Max-Age=604800");
    assert_eq!(b, "qd_csrf=c; Path=/; SameSite=Strict; Max-Age=604800");
    let (a, _) = clear_cookies(true);
    assert_eq!(a, "qd_session=; Path=/; HttpOnly; SameSite=Strict; Max-Age=0; Secure");
    assert_eq!(merged_cookie_header(Some("x=1"), &issued), "x=1; qd_session=s; qd_csrf=c");
    assert_eq!(merged_cookie_header(None, &issued), "qd_session=s; qd_csrf=c");
    assert_eq!(
        cookie(&vec!["a=1; qd_csrf=tok".to_string()], "qd_csrf").as_deref(),
        Some("tok")
    );
    assert_eq!(cookie(&vec!["a=1".to_string()], "qd_csrf"), None);
    assert_eq!(callback_location("/qd/", Some("oidc_state_invalid")), "/qd/?login_error=oidc_state_invalid");
    assert_eq!(callback_location("", None), "/");
}

#[test]
fn run_pages_hold_a_bounded_number_of_rows() {
    assert_eq!(run_page_limit(None), 100);
    assert_eq!(run_page_limit(Some(0)), 1);
    assert_eq!(run_page_limit(Some(-7)), 1);
    assert_eq!(run_page_limit(Some(42)), 42);
    assert_eq!(run_page_limit(Some(10_000)), 500);

    let (rows, more) = page_of(vec![5, 4, 3], 2);
    assert_eq!(rows, vec![5, 4]);
    assert!(more);
    let (rows, more) = page_of(vec![5, 4], 2);
    assert_eq!(rows, vec![5, 4]);
    assert!(!more);
}

#[test]
fn the_csrf_token_must_match_its_cookie_and_the_session() {
    let session = AuthenticatedSession { user: user("user"), csrf_token_hash: token_hash("tok"), expires_at: 0 };
    let cookies = vec!["qd_session=s; qd_csrf=tok".to_string()];
    assert!(require_csrf(&cookies, Some("tok"), &session).is_ok());
    assert_eq!(require_csrf(&cookies, Some("other"), &session).unwrap_err().code(), "csrf_validation_failed");
    assert!(require_csrf(&cookies, None, &session).is_err());
    assert!(require_csrf(&vec!["qd_session=s".to_string()], Some("tok"), &session).is_err());
    let stale = AuthenticatedSession { user: user("user"), csrf_token_hash: token_hash("old"), expires_at: 0 };
    assert!(require_csrf(&cookies, Some("tok"), &stale).is_err());
}

#[test]
fn an_unknown_api_route_has_a_stable_error() {
    let e = api_not_found();
    assert_eq!(e.status(), 404);
    assert_eq!(e.code(), "api_endpoint_not_found");
    assert_eq!(e.public_message(), "API endpoint not found");
}

#[test]
fn a_bound_template_is_refused_and_hidden_from_strangers() {
    assert!(matches!(template_delete_check(0, false), TemplateDeleteStep::Delete));
    match template_delete_check(2, false) {
        TemplateDeleteStep::Refuse(e) => {
            assert_eq!(e.status(), 404);
            assert_eq!(e.code(), "template_not_found");
            assert_eq!(e.public_message(), "Template not found");
        }
        TemplateDeleteStep::Delete => panic!("a bound template was deleted"),
    }
    match template_delete_check(2, true) {
        TemplateDeleteStep::Refuse(e) => {
            assert_eq!(e.status(), 409);
            assert_eq!(
                e.public_message(),
                "Template is still used by 2 task(s); delete or re-bind them first"
            );
        }
        TemplateDeleteStep::Delete => panic!("a bound template was deleted"),
    }
}

#[test]
fn the_delete_answer_follows_the_store() {
    assert_eq!(template_delete_answer(Ok(true), 0).unwrap(), 204);
    let missing = template_delete_answer(Ok(false), 0).unwrap_err();
    assert_eq!(missing.status(), 404);
    assert_eq!(missing.code(), "template_not_found");
    let raced = template_delete_answer(Err(ApiError::Internal("foreign key".into())), 1).unwrap_err();
    assert_eq!(raced.status(), 409);
    assert_eq!(
        raced.public_message(),
        "Template is still used by 1 task(s); delete or re-bind them first"
    );
    let failed = template_delete_answer(Err(ApiError::Internal("disk".into())), 0).unwrap_err();
    assert_eq!(failed.status(), 500);
}
