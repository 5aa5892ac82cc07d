use qdrust::accounts::{login_attempt, login_decision, login_rate_key, record_login, LoginDecision};
use qdrust::auth::{
    hash_password, new_token, token_hash, validate_password, verify_password, LoginRateLimiter,
    PasswordError, RateLimitError, TOKEN_BYTES,
};

#[test]
fn hashes_and_verifies_passwords() {
    let encoded = hash_password("correct horse battery staple").unwrap();
    assert!(encoded.starts_with("$argon2id$"));
    assert!(verify_password("correct horse battery staple", &encoded));
    assert!(!verify_password("wrong password", &encoded));
    assert!(!verify_password("anything", "not-a-password-hash"));
}

#[test]
fn rejects_short_passwords() {
    assert!(hash_password("short").is_err());
}

#[test]
fn the_length_rule_names_its_violation() {
    assert_eq!(validate_password("short"), Err(PasswordError::TooShort));
    assert_eq!(validate_password(&"p".repeat(1025)), Err(PasswordError::TooLong));
    assert_eq!(validate_password(&"p".repeat(12)), Ok(()));
    assert_eq!(hash_password(&"p".repeat(1025)), Err(PasswordError::TooLong));
}

#[test]
fn creates_independent_tokens_and_stable_hashes() {
    let first = new_token();
    let second = new_token();
    assert_eq!(first.len(), TOKEN_BYTES * 2);
    assert_ne!(first, second);
    assert_eq!(token_hash(&first), token_hash(&first));
    assert_ne!(token_hash(&first), token_hash(&second));
}

#[test]
fn a_token_hash_is_the_hex_sha256_of_the_token() {
    assert_eq!(
        token_hash(""),
        "e3b0c44298fc1c149afbf4c8996fb92427ae41e4649b934ca495991b7852b855"
    );
}

#[test]
fn limits_repeated_login_failures_and_resets_on_success() {
    let mut limiter = LoginRateLimiter::new(2, 60_000).unwrap();
    let now = 1_000u64;
    assert!(limiter.allowed("alice", now));
    limiter.record_failure("alice", now);
    assert!(limiter.allowed("alice", now));
    limiter.record_failure("alice", now);
    assert!(!limiter.allowed("alice", now));
    limiter.record_success("alice");
    assert!(limiter.allowed("alice", now));
}

#[test]
fn a_lockout_ends_with_its_window_and_other_keys_are_unaffected() {
    let mut limiter = LoginRateLimiter::new(1, 60_000).unwrap();
    limiter.record_failure("bob", 10);
    assert!(!limiter.allowed("bob", 10));
    assert!(limiter.allowed("carol", 10));
    assert!(!limiter.allowed("bob", 60_009));
    assert!(limiter.allowed("bob", 60_010));
}

#[test]
fn a_limiter_needs_attempts_and_a_window() {
    assert_eq!(LoginRateLimiter::new(0, 10).err(), Some(RateLimitError::NoAttempts));
    assert_eq!(LoginRateLimiter::new(3, 0).err(), Some(RateLimitError::ZeroWindow));
}

#[test]
fn a_refused_login_counts_against_its_key() {
    let mut limiter = LoginRateLimiter::new(2, 60_000).unwrap();
    let key = login_rate_key("Admin_User");
    let now = 5_000u64;
    for _ in 0..2 {
        let allowed = limiter.allowed(&key, now);
        let decision = login_decision(allowed, Some((false, true)), false, false);
        assert_eq!(decision, LoginDecision::Refused);
        assert_eq!(decision.error().unwrap().code(), "invalid_credentials");
        record_login(&mut limiter, &key, decision, now);
    }
    let allowed = limiter.allowed(&key, now);
    assert_eq!(login_decision(allowed, Some((false, true)), true, false), LoginDecision::RateLimited);
    record_login(&mut limiter, &key, LoginDecision::Accepted, now);
    assert!(limiter.allowed(&key, now));
}

#[test]
fn every_password_the_rule_accepts_is_hashed() {
    for password in ["twelve chars", "ünïcödé pässwörd"] {
        let encoded = hash_password(password).unwrap();
        assert!(encoded.starts_with("$argon2id$"));
        assert!(verify_password(password, &encoded));
    }
}

#[test]
fn a_login_attempt_checks_the_stored_hash_and_throttles_the_key() {
    let stored = hash_password("correct horse battery staple").unwrap();
    let mut limiter = LoginRateLimiter::new(2, 60_000).unwrap();
    let account = Some((false, true, stored.as_str()));
    let wrong = login_attempt(&mut limiter, "alice", 1_000, account, "wrong password!", false);
    assert_eq!(wrong, LoginDecision::Refused);
    let unknown = login_attempt(&mut limiter, "alice", 2_000, None, "correct horse battery staple", false);
    assert_eq!(unknown, LoginDecision::Refused);
    let throttled = login_attempt(&mut limiter, "alice", 3_000, account, "correct horse battery staple", false);
    assert_eq!(throttled, LoginDecision::RateLimited);
    let later = login_attempt(&mut limiter, "alice", 61_000, account, "correct horse battery staple", false);
    assert_eq!(later, LoginDecision::Accepted);
    assert!(limiter.allowed("alice", 61_001));
    let unverified = Some((false, false, stored.as_str()));
    assert_eq!(
        login_attempt(&mut limiter, "bob", 1_000, unverified, "correct horse battery staple", true),
        LoginDecision::Unverified
    );
    let disabled = Some((true, true, stored.as_str()));
    assert_eq!(
        login_attempt(&mut limiter, "carol", 1_000, disabled, "correct horse battery staple", false),
        LoginDecision::Refused
    );
}
