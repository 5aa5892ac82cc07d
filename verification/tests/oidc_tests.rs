use base64::engine::general_purpose::URL_SAFE_NO_PAD;
use base64::Engine;
use qdrust::config::OidcConfig;
use qdrust::json::JsonValue;
use qdrust::model::OidcLoginState;
use qdrust::oidc::{
    check_callback_params, check_login_state, clear_oidc_cookie, derive_nonce,
    derive_pkce_verifier, derive_redirect_uri, effective_redirect_uri, generate_state,
    groups_from_claims, id_token_payload, login_state_expires_at, looks_like_opaque_id,
    needs_user_info, nonce_hash, parse_scopes, settle_identity, state_cookie, state_hash,
    username_fallback_from_subject, username_hint_from_candidates, username_hint_from_claims,
    verifier_hash, CallbackFailure, UserInfoProfile,
};

#[test]
fn verifier_and_nonce_are_deterministic_and_distinct() {
    let v1 = derive_pkce_verifier("state", "secret");
    let v2 = derive_pkce_verifier("state", "secret");
    assert_eq!(v1, v2, "verifier must be deterministic");
    let n = derive_nonce("state", "secret");
    assert_eq!(n, derive_nonce("state", "secret"), "nonce must be deterministic");
    assert_ne!(v1, n, "verifier and nonce must differ");
    assert_eq!(v1.len(), 43);
    assert_ne!(derive_pkce_verifier("other", "secret"), v1);
}

#[test]
fn hashes_are_stable() {
    assert_eq!(state_hash("abc"), state_hash("abc"));
    assert_eq!(nonce_hash("xyz"), nonce_hash("xyz"));
    assert_eq!(verifier_hash("123"), verifier_hash("123"));
    assert_ne!(state_hash("abc"), state_hash("abd"));
}

#[test]
fn a_state_hash_is_the_hex_sha256_of_the_state() {
    assert_eq!(
        state_hash("abc"),
        "ba7816bf8f01cfea414140de5dae2223b00361a396177a9cb410ff61f20015ad"
    );
}

#[test]
fn redirect_uri_uses_forwarded_headers() {
    let got = derive_redirect_uri(
        "/qd",
        Some("https"),
        Some("auth.example.com"),
        Some("http"),
        Some("internal:8080"),
    );
    assert_eq!(got, "https://auth.example.com/qd/api/v1/auth/oidc/callback");
}

#[test]
fn redirect_uri_falls_back_to_request_uri() {
    let got = derive_redirect_uri("", None, None, Some("http"), Some("internal:8080"));
    assert_eq!(got, "http://internal:8080/api/v1/auth/oidc/callback");
}

#[test]
fn a_relative_request_uri_falls_back_to_https_on_localhost() {
    let got = derive_redirect_uri("/qd/", None, Some(""), None, None);
    assert_eq!(got, "https://localhost/qd/api/v1/auth/oidc/callback");
}

#[test]
fn effective_redirect_uri_prefers_configured_override() {
    let oidc = OidcConfig {
        redirect_uri: "https://sso.example.com/custom/callback".into(),
        ..OidcConfig::default()
    };
    assert_eq!(
        effective_redirect_uri(&oidc, "", None, None, None, None),
        "https://sso.example.com/custom/callback"
    );
}

#[test]
fn effective_redirect_uri_derives_when_no_override() {
    let oidc = OidcConfig::default();
    assert_eq!(
        effective_redirect_uri(&oidc, "/qd", Some("https"), Some("auth.example.com"), None, None),
        "https://auth.example.com/qd/api/v1/auth/oidc/callback"
    );
}

#[test]
fn parse_scopes_splits_on_whitespace_and_commas() {
    let scopes = parse_scopes("openid profile email");
    assert_eq!(scopes.len(), 3);
    assert_eq!(scopes[0], "openid");
    let scoped = parse_scopes("openid, profile ,email;groups");
    assert_eq!(scoped.len(), 4);
    assert_eq!(scoped, vec!["openid", "profile", "email", "groups"]);
}

#[test]
fn generate_state_is_high_entropy_and_url_safe() {
    let a = generate_state();
    let b = generate_state();
    assert_ne!(a, b);
    assert_eq!(a.len(), 43);
    assert!(a.chars().all(|c| c.is_ascii_alphanumeric() || c == '-' || c == '_'));
}

/// A compact JWT whose payload is `payload_json`; header and signature are
/// dummy bytes.
fn fake_id_token(payload_json: &str) -> String {
    let payload = URL_SAFE_NO_PAD.encode(payload_json.as_bytes());
    let header = URL_SAFE_NO_PAD.encode(b"{\"alg\":\"RS256\"}");
    let sig = URL_SAFE_NO_PAD.encode(b"sig");
    format!("{header}.{payload}.{sig}")
}

fn to_json(value: &serde_json::Value) -> JsonValue {
    match value {
        serde_json::Value::Null => JsonValue::Null,
        serde_json::Value::Bool(b) => JsonValue::Bool(*b),
        serde_json::Value::Number(n) => JsonValue::Number(n.to_string()),
        serde_json::Value::String(s) => JsonValue::Str(s.clone()),
        serde_json::Value::Array(items) => JsonValue::Array(items.iter().map(to_json).collect()),
        serde_json::Value::Object(members) => JsonValue::Object(
            members.iter().map(|(k, v)| (k.clone(), to_json(v))).collect(),
        ),
    }
}

/// The claims of a token's payload when it decodes to a JSON object.
fn claims(token: &str) -> Option<JsonValue> {
    let bytes = id_token_payload(token)?;
    let value: serde_json::Value = serde_json::from_slice(&bytes).ok()?;
    if value.is_object() {
        Some(to_json(&value))
    } else {
        None
    }
}

fn groups_from_id_token(token: &str, claim: &str) -> Vec<String> {
    groups_from_claims(claims(token).as_ref(), claim)
}

fn username_hint_from_id_token(typed: Option<&str>, token: &str) -> Option<String> {
    username_hint_from_claims(typed, claims(token).as_ref())
}

#[test]
fn the_payload_is_the_middle_part_decoded() {
    let token = fake_id_token(r#"{"sub":"abc"}"#);
    assert_eq!(id_token_payload(&token).unwrap(), br#"{"sub":"abc"}"#.to_vec());
    assert!(id_token_payload("not-a-jwt").is_none());
    assert!(id_token_payload("a.b").is_none());
    assert!(id_token_payload("a.!!.c").is_none());
}

#[test]
fn groups_extracted_from_array_claim() {
    let token = fake_id_token(r#"{"sub":"abc","groups":["qdrust-admins"," users ","qdrust-dev"]}"#);
    assert_eq!(groups_from_id_token(&token, "groups"), vec!["qdrust-admins", "users", "qdrust-dev"]);
}

#[test]
fn groups_extracted_from_comma_string_claim() {
    let token = fake_id_token(r#"{"groups":"qdrust-admins, qdrust-dev"}"#);
    assert_eq!(groups_from_id_token(&token, "groups"), vec!["qdrust-admins", "qdrust-dev"]);
}

#[test]
fn missing_claim_or_bad_payload_yields_empty() {
    let token = fake_id_token(r#"{"sub":"abc"}"#);
    assert!(groups_from_id_token(&token, "groups").is_empty());
    assert!(groups_from_id_token(&token, "roles").is_empty());
    assert!(groups_from_id_token("not-a-jwt", "groups").is_empty());
    let bad = fake_id_token(r#"{"groups":42}"#);
    assert!(groups_from_id_token(&bad, "groups").is_empty());
}

#[test]
fn username_hint_prefers_preferred_username_then_nickname_then_name() {
    let token = fake_id_token(
        r#"{"sub":"11111111-2222-3333-4444-555555555555","preferred_username":"alice","nickname":"ali","name":"Alice Example","email":"alice@example.com"}"#,
    );
    assert_eq!(username_hint_from_id_token(None, &token).as_deref(), Some("alice"));
    let token = fake_id_token(
        r#"{"sub":"11111111-2222-3333-4444-555555555555","nickname":"ali","name":"Alice Example"}"#,
    );
    assert_eq!(username_hint_from_id_token(None, &token).as_deref(), Some("ali"));
    let token =
        fake_id_token(r#"{"sub":"11111111-2222-3333-4444-555555555555","name":"Alice Example"}"#);
    assert_eq!(username_hint_from_id_token(None, &token).as_deref(), Some("Alice Example"));
}

#[test]
fn username_hint_handles_localized_name_and_email_fallback() {
    let token = fake_id_token(
        r#"{"sub":"11111111-2222-3333-4444-555555555555","name":{"value":"Bob Builder"}}"#,
    );
    assert_eq!(username_hint_from_id_token(None, &token).as_deref(), Some("Bob Builder"));
    let token = fake_id_token(
        r#"{"sub":"11111111-2222-3333-4444-555555555555","email":"carol@example.com"}"#,
    );
    assert_eq!(username_hint_from_id_token(None, &token).as_deref(), Some("carol"));
    let token = fake_id_token(r#"{"sub":"11111111-2222-3333-4444-555555555555"}"#);
    assert!(username_hint_from_id_token(None, &token).is_none());
    assert!(username_hint_from_id_token(None, "not-a-jwt").is_none());
}

#[test]
fn opaque_preferred_username_skipped_for_readable_name_or_email() {
    let token = fake_id_token(
        r#"{"sub":"aaaaaaaa-bbbb-cccc-dddd-eeeeeeeeeeee","preferred_username":"3f9c1e2a7b4d8f0a6c3e9d1b5a7f0c2e","nickname":"christa","name":"christaikobo","email":"christaikobo@example.com"}"#,
    );
    assert_eq!(username_hint_from_id_token(None, &token).as_deref(), Some("christa"));

    let token = fake_id_token(
        r#"{"sub":"aaaaaaaa-bbbb-cccc-dddd-eeeeeeeeeeee","preferred_username":"3f9c1e2a7b4d8f0a6c3e9d1b5a7f0c2e","email":"christaikobo@example.com"}"#,
    );
    assert_eq!(username_hint_from_id_token(None, &token).as_deref(), Some("christaikobo"));

    let typed = "3f9c1e2a7b4d8f0a6c3e9d1b5a7f0c2e";
    assert_eq!(username_hint_from_id_token(Some(typed), &token).as_deref(), Some("christaikobo"));

    let token = fake_id_token(r#"{"sub":"aaaaaaaa-bbbb-cccc-dddd-eeeeeeeeeeee"}"#);
    assert!(username_hint_from_id_token(Some(typed), &token).is_none());
}

#[test]
fn opaque_id_detection_heuristic() {
    assert!(looks_like_opaque_id("3f9c1e2a7b4d8f0a6c3e9d1b5a7f0c2e"));
    assert!(looks_like_opaque_id("aaaaaaaa-bbbb-cccc-dddd-eeeeeeeeeeee"));
    assert!(looks_like_opaque_id("12345678901234"));
    assert!(!looks_like_opaque_id("christaikobo"));
    assert!(!looks_like_opaque_id("alice"));
    assert!(looks_like_opaque_id(""));
}

#[test]
fn candidates_pick_readable_handle_and_skip_opaque() {
    assert_eq!(
        username_hint_from_candidates(
            Some("christaikobo"),
            Some("christa"),
            Some("Christa Iko"),
            Some("christaikobo@example.com"),
        )
        .as_deref(),
        Some("christaikobo")
    );
    assert_eq!(
        username_hint_from_candidates(Some("3f9c1e2a7b4d8f0a6c3e9d1b5a7f0c2e"), Some("christa"), None, None)
            .as_deref(),
        Some("christa")
    );
    assert!(username_hint_from_candidates(Some("3f9c1e2a7b4d8f0a6c3e9d1b5a7f0c2e"), None, None, None)
        .is_none());
    assert!(username_hint_from_candidates(None, None, None, None).is_none());
}

#[test]
fn candidates_use_email_local_part_as_last_resort() {
    assert_eq!(
        username_hint_from_candidates(None, None, None, Some("christaikobo@example.com")).as_deref(),
        Some("christaikobo")
    );
    assert!(username_hint_from_candidates(None, None, None, Some("1234567890@x.com")).is_none());
}

#[test]
fn user_info_profile_is_empty_detects_blank_profiles() {
    assert!(UserInfoProfile::default().is_empty());
    let with_email = UserInfoProfile { email: Some("a@b.com".into()), ..UserInfoProfile::default() };
    assert!(!with_email.is_empty());
}

#[test]
fn a_user_info_profile_drops_blank_claims() {
    let profile = UserInfoProfile::from_claims(Some(" carol "), Some("   "), None, Some("c@x.com"));
    assert_eq!(profile.preferred_username.as_deref(), Some("carol"));
    assert_eq!(profile.nickname, None);
    assert_eq!(profile.name, None);
    assert_eq!(profile.email.as_deref(), Some("c@x.com"));
}

#[test]
fn subject_fallback_shortens_opaque_sub_to_readable_handle() {
    assert_eq!(username_fallback_from_subject("23cc07f8-redacted-b40581b80dcb"), "user-23cc07f8");
    assert_eq!(username_fallback_from_subject("aaaaaaaa-bbbb-cccc-dddd-eeeeeeeeeeee"), "user-aaaaaaaa");
    assert_eq!(username_fallback_from_subject("3f9c1e2a7b4d8f0a6c3e9d1b5a7f0c2e"), "user-3f9c1e2a");
    assert_eq!(username_fallback_from_subject("12345678901234"), "user-12345678");
    assert_eq!(username_fallback_from_subject("ab"), "user-ab");
    assert_eq!(username_fallback_from_subject(""), "user");
    assert_eq!(username_fallback_from_subject("   "), "user");
    assert_eq!(
        username_fallback_from_subject("23cc07f8-redacted-b40581b80dcb"),
        username_fallback_from_subject("23cc07f8-redacted-b40581b80dcb")
    );
    assert!(!looks_like_opaque_id(&username_fallback_from_subject("23cc07f8-redacted-b40581b80dcb")));
}

#[test]
fn the_state_cookie_lives_as_long_as_the_login_state() {
    assert_eq!(
        state_cookie("abc", false),
        "qd_oidc_state=abc; Path=/; HttpOnly; SameSite=Lax; Max-Age=300"
    );
    assert_eq!(
        state_cookie("abc", true),
        "qd_oidc_state=abc; Path=/; HttpOnly; SameSite=Lax; Max-Age=300; Secure"
    );
    assert_eq!(clear_oidc_cookie(false), "qd_oidc_state=; Path=/; HttpOnly; SameSite=Lax; Max-Age=0");
    assert_eq!(login_state_expires_at(1_000), 1_300);
}

#[test]
fn callback_parameters_fail_in_order() {
    assert_eq!(
        check_callback_params(Some("denied"), Some("c"), Some("s"), Some("s")),
        Err(CallbackFailure::ProviderError)
    );
    assert_eq!(check_callback_params(None, None, Some("s"), Some("s")), Err(CallbackFailure::MissingCode));
    assert_eq!(check_callback_params(None, Some("c"), None, Some("s")), Err(CallbackFailure::MissingState));
    assert_eq!(
        check_callback_params(None, Some("c"), Some("s"), None),
        Err(CallbackFailure::StateCookieMissing)
    );
    assert_eq!(
        check_callback_params(None, Some("c"), Some("s"), Some("t")),
        Err(CallbackFailure::StateMismatch)
    );
    assert_eq!(check_callback_params(None, Some("c"), Some("s"), Some("s")), Ok(()));
    assert_eq!(CallbackFailure::StateMismatch.code(), "oidc_state_mismatch");
}

#[test]
fn a_stored_login_state_vouches_for_its_verifier_and_nonce() {
    let verifier = derive_pkce_verifier("st", "secret");
    let nonce = derive_nonce("st", "secret");
    let row = OidcLoginState {
        state_hash: state_hash("st"),
        nonce_hash: nonce_hash(&nonce),
        pkce_verifier_encrypted: verifier_hash(&verifier),
        redirect_uri: "https://x/cb".into(),
        created_at: 0,
        expires_at: 300,
    };
    assert_eq!(
        check_login_state("st", "secret", Some(&row), "https://x/cb"),
        Ok((verifier.clone(), nonce.clone()))
    );
    assert_eq!(
        check_login_state("st", "secret", Some(&row), "https://y/cb"),
        Err(CallbackFailure::RedirectMismatch)
    );
    assert_eq!(
        check_login_state("st", "other", Some(&row), "https://x/cb"),
        Err(CallbackFailure::IntegrityFailed)
    );
    assert_eq!(check_login_state("st", "secret", None, "https://x/cb"), Err(CallbackFailure::StateInvalid));
}

#[test]
fn user_info_fills_what_the_token_left_out() {
    assert!(needs_user_info(&None, &Some("a@b.c".into())));
    assert!(needs_user_info(&Some("alice".into()), &None));
    assert!(!needs_user_info(&Some("alice".into()), &Some("a@b.c".into())));

    let profile = UserInfoProfile::from_claims(None, Some("carol"), None, Some("carol@x.com"));
    let (name, email) = settle_identity(None, None, Some(&profile), "aaaaaaaa-bbbb-cccc-dddd-eeeeeeeeeeee");
    assert_eq!(name, "carol");
    assert_eq!(email.as_deref(), Some("carol@x.com"));

    let (name, email) = settle_identity(None, None, None, "aaaaaaaa-bbbb-cccc-dddd-eeeeeeeeeeee");
    assert_eq!(name, "user-aaaaaaaa");
    assert_eq!(email, None);
}

#[test]
fn only_the_canonical_uuid_grouping_counts_as_opaque() {
    assert!(looks_like_opaque_id("aaaaaaaa-bbbb-cccc-dddd-eeeeeeeeeeee"));
    assert!(!looks_like_opaque_id("aaaaaaaaaaaaaaaaaaaaaaaaaaaa-a-a-a-a"));
    assert!(!looks_like_opaque_id("aaaaaaaaa-bbb-cccc-dddd-eeeeeeeeeeee"));
}

#[test]
fn the_subject_fallback_is_lowercase() {
    assert_eq!(username_fallback_from_subject("ABCDEF12-3456"), "user-abcdef12");
    assert_eq!(username_fallback_from_subject("Ab"), "user-ab");
}
