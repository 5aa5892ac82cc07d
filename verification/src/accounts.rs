//! The decisions of the local account endpoints: login throttling keys and
//! outcomes, and the links and mails of e-mail verification and password
//! reset. The store and the mail transport are reached outside the library.

use vstd::prelude::*;
use vstd::string::StringSliceAdditionalSpecFns;

use crate::api::ApiError;
use crate::auth::{
    LoginRateLimiter, failure_window, hash_password, permits, verify_password,
    window_expired, AttemptWindow,
};
use crate::crypto::argon2_matches;
use crate::json::{JsonModel, JsonValue, json_integer, json_string, members_of, model_of, push_member};
use crate::oidc::opt_view;
use crate::text::{
    append_str, chars_lower, chars_of, decimal_int, lower, string_of, trim, trim_chars,
};

verus! {

/// The key a login attempt is throttled under: the username, trimmed, in
/// ASCII lowercase.
pub fn login_rate_key(username: &str) -> (r: String)
    ensures
        r@ == lower(trim(username@)),
{
    let v = chars_of(username);
    let t = trim_chars(v.as_slice());
    let l = chars_lower(t.as_slice());
    string_of(l.as_slice())
}

/// How a login attempt ends.
#[derive(Clone, Copy, Debug, PartialEq, Eq, Structural)]
pub enum LoginDecision {
    /// Too many recent failures for this key (429, nothing recorded).
    RateLimited,
    /// Unknown user, wrong password or disabled account (401; `record_login`
    /// counts a failure).
    Refused,
    /// Right password, but the address still needs verifying (403; nothing
    /// recorded).
    Unverified,
    /// A session is issued (`record_login` forgets the failures).
    Accepted,
}

/// How a login ends: throttled first; then refused unless an enabled
/// account's password matched; then held back while the e-mail is
/// unverified and verification is required.
pub open spec fn decided_login(
    allowed: bool,
    account: Option<(bool, bool)>,
    password_valid: bool,
    require_verification: bool,
) -> LoginDecision {
    if !allowed {
        LoginDecision::RateLimited
    } else {
        match account {
            Some((disabled, verified)) => if password_valid && !disabled {
                if require_verification && !verified {
                    LoginDecision::Unverified
                } else {
                    LoginDecision::Accepted
                }
            } else {
                LoginDecision::Refused
            },
            None => LoginDecision::Refused,
        }
    }
}

/// Only an enabled account whose password matched logs in, only while the
/// throttle allows it, and, when verification is required, only once its
/// e-mail is verified.
pub proof fn law_only_valid_logins_are_accepted(
    allowed: bool,
    account: Option<(bool, bool)>,
    password_valid: bool,
    require_verification: bool,
)
    requires
        decided_login(allowed, account, password_valid, require_verification)
            == LoginDecision::Accepted,
    ensures
        allowed,
        password_valid,
        account is Some,
        !account.unwrap().0,
        require_verification ==> account.unwrap().1,
{
}

/// Decide a login: `allowed` is the throttle's answer, `account` the
/// account found (`(disabled, email_verified)`), `password_valid` the hash
/// check's answer (made against a dummy hash when there is no account, so
/// both cases cost the same).
pub fn login_decision(
    allowed: bool,
    account: Option<(bool, bool)>,
    password_valid: bool,
    require_verification: bool,
) -> (r: LoginDecision)
    ensures
        r == decided_login(allowed, account, password_valid, require_verification),
{
    if !allowed {
        return LoginDecision::RateLimited;
    }
    match account {
        Some((disabled, verified)) => if password_valid && !disabled {
            if require_verification && !verified {
                LoginDecision::Unverified
            } else {
                LoginDecision::Accepted
            }
        } else {
            LoginDecision::Refused
        },
        None => LoginDecision::Refused,
    }
}

/// Record a decided login with the throttle of `rate_key` at `now_ms`: a
/// refusal counts as a failure of the key, an accepted login forgets the
/// key's failures, and a throttled or unverified attempt records nothing.
pub fn record_login(limiter: &mut LoginRateLimiter, rate_key: &str, decision: LoginDecision, now_ms: u64)
    ensures
        final(limiter).max_attempts() == old(limiter).max_attempts(),
        final(limiter).window_ms() == old(limiter).window_ms(),
        forall|k: Seq<char>|
            k != rate_key@ ==> #[trigger] final(limiter).window_of(k) == old(limiter).window_of(k),
        final(limiter).window_of(rate_key@) == match decision {
            LoginDecision::Refused => Some(
                failure_window(old(limiter).window_of(rate_key@), now_ms, old(limiter).window_ms()),
            ),
            LoginDecision::Accepted => None,
            _ => old(limiter).window_of(rate_key@),
        },
{
    match decision {
        LoginDecision::Refused => limiter.record_failure(rate_key, now_ms),
        LoginDecision::Accepted => limiter.record_success(rate_key),
        _ => {},
    }
}

/// The password a login without an account is checked against, so that
/// both cases take the same time.
pub const DUMMY_PASSWORD: &'static str = "qdrust dummy password value";

/// The window of a key once `allowed` has looked at it: an expired one is
/// forgotten.
pub open spec fn live_window(w: Option<AttemptWindow>, now_ms: u64, window_ms: u64) -> Option<AttemptWindow> {
    match w {
        Some(x) => if window_expired(x, now_ms, window_ms) {
            None
        } else {
            w
        },
        None => None,
    }
}

/// The flags `login_decision` reads of an account found with its hash.
pub open spec fn account_flags(account: Option<(bool, bool, &str)>) -> Option<(bool, bool)> {
    match account {
        Some((disabled, verified, _)) => Some((disabled, verified)),
        None => None,
    }
}

/// A local login attempt of `password` under the throttle key `rate_key` at
/// `now_ms`: asks the throttle, checks the password against the account's
/// stored hash (`(disabled, email_verified, hash)`), or against a fresh hash
/// of a dummy password when there is no account, decides, and records the
/// outcome with the throttle.
pub fn login_attempt(
    limiter: &mut LoginRateLimiter,
    rate_key: &str,
    now_ms: u64,
    account: Option<(bool, bool, &str)>,
    password: &str,
    require_verification: bool,
) -> (r: LoginDecision)
    ensures
        r == decided_login(
            permits(old(limiter).window_of(rate_key@), now_ms, old(limiter).window_ms(), old(limiter).max_attempts()),
            account_flags(account),
            match account {
                Some((_, _, hash)) => argon2_matches(password.spec_bytes(), hash@),
                None => false,
            },
            require_verification,
        ),
        final(limiter).max_attempts() == old(limiter).max_attempts(),
        final(limiter).window_ms() == old(limiter).window_ms(),
        forall|k: Seq<char>|
            k != rate_key@ ==> #[trigger] final(limiter).window_of(k) == old(limiter).window_of(k),
        final(limiter).window_of(rate_key@) == match r {
            LoginDecision::Refused => Some(
                failure_window(old(limiter).window_of(rate_key@), now_ms, old(limiter).window_ms()),
            ),
            LoginDecision::Accepted => None,
            _ => live_window(old(limiter).window_of(rate_key@), now_ms, old(limiter).window_ms()),
        },
{
    let ghost before = *limiter;
    let allowed = limiter.allowed(rate_key, now_ms);
    if !allowed {
        return LoginDecision::RateLimited;
    }
    let ghost checked = *limiter;
    let (flags, valid) = match account {
        Some((disabled, verified, hash)) => (Some((disabled, verified)), verify_password(password, hash)),
        None => {
            proof {
                reveal_strlit("qdrust dummy password value");
            }
            let valid = match hash_password(DUMMY_PASSWORD) {
                Ok(dummy) => verify_password(password, dummy.as_str()),
                Err(_) => false,
            };
            (None, valid)
        },
    };
    let decision = login_decision(allowed, flags, valid, require_verification);
    record_login(limiter, rate_key, decision, now_ms);
    proof {
        assert(checked.window_of(rate_key@) == live_window(before.window_of(rate_key@), now_ms, before.window_ms()));
    }
    decision
}

impl LoginDecision {
    /// The error a refused login answers with; `None` for an accepted one.
    pub fn error(&self) -> (r: Option<ApiError>)
        ensures
            match *self {
                LoginDecision::RateLimited => r == Some(
                    ApiError::TooManyRequests("login_rate_limited", "Too many login attempts"),
                ),
                LoginDecision::Refused => r == Some(
                    ApiError::Unauthorized("invalid_credentials", "Invalid username or password"),
                ),
                LoginDecision::Unverified => r == Some(
                    ApiError::Forbidden("email_not_verified", "Email address is not verified"),
                ),
                LoginDecision::Accepted => r is None,
            },
    {
        match self {
            LoginDecision::RateLimited => Some(
                ApiError::TooManyRequests("login_rate_limited", "Too many login attempts"),
            ),
            LoginDecision::Refused => Some(
                ApiError::Unauthorized("invalid_credentials", "Invalid username or password"),
            ),
            LoginDecision::Unverified => Some(
                ApiError::Forbidden("email_not_verified", "Email address is not verified"),
            ),
            LoginDecision::Accepted => None,
        }
    }
}

/// The site's public URL: `QDRUST_BASE_URL` when set, else the local default.
pub fn public_base_url(configured: Option<&str>) -> (r: String)
    ensures
        r@ == match configured {
            Some(u) => u@,
            None => "http://localhost:8923"@,
        },
{
    match configured {
        Some(u) => String::from_str(u),
        None => String::from_str("http://localhost:8923"),
    }
}

/// The e-mail verification link of a token.
pub fn verify_link(base_url: &str, token: &str) -> (r: String)
    ensures
        r@ == base_url@ + "/verify-email?token="@ + token@,
{
    let mut v = chars_of(base_url);
    append_str(&mut v, "/verify-email?token=");
    append_str(&mut v, token);
    string_of(v.as_slice())
}

/// The password-reset link of a token.
pub fn reset_link(base_url: &str, token: &str) -> (r: String)
    ensures
        r@ == base_url@ + "/reset-password?token="@ + token@,
{
    let mut v = chars_of(base_url);
    append_str(&mut v, "/reset-password?token=");
    append_str(&mut v, token);
    string_of(v.as_slice())
}

/// Subject of the verification mail.
pub const VERIFY_SUBJECT: &'static str = "[qdrust] Verify your email";

/// Subject of the reset mail.
pub const RESET_SUBJECT: &'static str = "[qdrust] Reset your password";

/// The body of the verification mail.
pub fn verification_mail(username: &str, link: &str) -> (r: String)
    ensures
        r@ == "Hello "@ + username@ + ",\n\nVerify your email address by opening this link:\n"@
            + link@
            + "\n\nIf you did not request this, you can ignore this message.\n"@,
{
    let mut v = chars_of("Hello ");
    append_str(&mut v, username);
    append_str(&mut v, ",\n\nVerify your email address by opening this link:\n");
    append_str(&mut v, link);
    append_str(&mut v, "\n\nIf you did not request this, you can ignore this message.\n");
    string_of(v.as_slice())
}

/// The body of the reset mail.
pub fn reset_mail(username: &str, link: &str) -> (r: String)
    ensures
        r@ == "Hello "@ + username@ + ",\n\nReset your password by opening this link:\n"@ + link@
            + "\n\nIf you did not request this, you can ignore this message. The link expires in 1 hour.\n"@,
{
    let mut v = chars_of("Hello ");
    append_str(&mut v, username);
    append_str(&mut v, ",\n\nReset your password by opening this link:\n");
    append_str(&mut v, link);
    append_str(
        &mut v,
        "\n\nIf you did not request this, you can ignore this message. The link expires in 1 hour.\n",
    );
    string_of(v.as_slice())
}

/// Whether a reset request mints a token: only for an existing account that
/// is not disabled. The reply is the same either way.
pub fn reset_applies(account_disabled: Option<bool>) -> (r: bool)
    ensures
        r == (account_disabled == Some(false)),
{
    match account_disabled {
        Some(d) => !d,
        None => false,
    }
}

/// The reply to a reset request: just `sent` when mail is configured (the
/// token goes by mail only); without mail, the token, its link and its
/// expiry too, so a local setup can finish the flow.
pub open spec fn reset_reply_model(
    smtp_configured: bool,
    minted: Option<(i64, Seq<char>, Seq<char>)>,
) -> JsonModel {
    match minted {
        Some((expires_at, token, link)) => if !smtp_configured {
            JsonModel::Object(
                seq![
                    ("sent"@, JsonModel::Bool(true)),
                    ("expires_at"@, JsonModel::Number(decimal_int(expires_at as int))),
                    ("reset_token"@, JsonModel::Str(token)),
                    ("reset_url"@, JsonModel::Str(link)),
                ],
            )
        } else {
            JsonModel::Object(seq![("sent"@, JsonModel::Bool(true))])
        },
        None => JsonModel::Object(seq![("sent"@, JsonModel::Bool(true))]),
    }
}

/// Build the reply to a reset request; `minted` holds the token's expiry,
/// the token and its link when one was made.
pub fn reset_reply(smtp_configured: bool, minted: Option<(i64, &str, &str)>) -> (r: JsonValue)
    ensures
        model_of(r) == reset_reply_model(
            smtp_configured,
            match minted {
                Some((e, t, l)) => Some((e, t@, l@)),
                None => None,
            },
        ),
{
    let mut fields: Vec<(String, JsonValue)> = Vec::new();
    push_member(&mut fields, "sent", JsonValue::Bool(true));
    match minted {
        Some((expires_at, token, link)) => if !smtp_configured {
            push_member(&mut fields, "expires_at", json_integer(expires_at));
            push_member(&mut fields, "reset_token", json_string(token));
            push_member(&mut fields, "reset_url", json_string(link));
        },
        None => {},
    }
    let ghost fv = fields@;
    let r = JsonValue::Object(fields);
    assert(model_of(r) == JsonModel::Object(members_of(fv)));
    let ghost pm = reset_reply_model(
        smtp_configured,
        match minted {
            Some((e, t, l)) => Some((e, t@, l@)),
            None => None,
        },
    );
    assert(pm->Object_0 =~= members_of(fv));
    r
}

} // verus!
