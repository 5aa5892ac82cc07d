//! Runtime settings, the login policy the API applies, its error contract,
//! and the session and CSRF cookies.

use vstd::prelude::*;

use crate::auth::{token_digest, token_hash};
use crate::model::{AuthenticatedSession, IssuedSession};
use crate::config::{OidcConfig, PublicAuthConfig};
use crate::crypto::constant_time_eq;
use crate::json::{JsonValue, json_bool};
use crate::text::{
    append_chars, append_str, chars_eq, chars_of, chars_trim_end_char, decimal, decimal_int,
    find_chars_from, find_from, i64_decimal, split, split_chars, string_of, sub_chars, trim,
    trim_chars, trim_end_char, u64_decimal, views,
};
use vstd::string::StringSliceAdditionalSpecFns;

verus! {

/// Settings an administrator can change without a restart.
#[derive(Clone, Debug)]
pub struct RuntimeSettings {
    pub require_email_verification: bool,
    pub ga_key: Option<String>,
    pub log_retention_days: u64,
    /// Let outbound requests reach private, loopback and link-local targets.
    pub allow_private_network: bool,
    /// Accept certificates that do not validate. Separate from the switch
    /// above: needing one is no reason to grant the other.
    pub allow_invalid_certificates: bool,
}

/// Whether a snapshot holds every setting at its default.
pub open spec fn settings_closed(s: RuntimeSettings) -> bool {
    &&& !s.require_email_verification
    &&& s.ga_key is None
    &&& s.log_retention_days == 0
    &&& !s.allow_private_network
    &&& !s.allow_invalid_certificates
}

impl Default for RuntimeSettings {
    fn default() -> (r: Self)
        ensures
            settings_closed(r),
    {
        RuntimeSettings {
            require_email_verification: false,
            ga_key: None,
            log_retention_days: 0,
            allow_private_network: false,
            allow_invalid_certificates: false,
        }
    }
}

/// A fresh settings snapshot: every switch off.
pub fn runtime_settings() -> (r: RuntimeSettings)
    ensures
        settings_closed(r),
{
    RuntimeSettings::default()
}

/// Site-settings key of the private-network switch.
pub const ALLOW_PRIVATE_NETWORK_SETTING: &'static str = "security.allow_private_network";

/// Site-settings key of the invalid-certificate switch.
pub const ALLOW_INVALID_CERTIFICATES_SETTING: &'static str = "security.allow_invalid_certificates";

/// The snapshot after one stored setting is applied: each known key sets its
/// own field when the value has the right JSON type; anything else changes
/// nothing.
pub open spec fn applied_setting(
    runtime: RuntimeSettings,
    key: Seq<char>,
    value: JsonValue,
) -> RuntimeSettings {
    if key == "require_email_verification"@ {
        match value {
            JsonValue::Bool(b) => RuntimeSettings { require_email_verification: b, ..runtime },
            _ => runtime,
        }
    } else if key == "ga_key"@ {
        match value {
            JsonValue::Str(s) => RuntimeSettings { ga_key: Some(s), ..runtime },
            _ => runtime,
        }
    } else if key == "logs.retention_days"@ {
        match value.spec_as_i64() {
            Some(v) => RuntimeSettings {
                log_retention_days: if v < 0 {
                    0
                } else {
                    v as u64
                },
                ..runtime
            },
            None => runtime,
        }
    } else if key == "security.allow_private_network"@ {
        match value {
            JsonValue::Bool(b) => RuntimeSettings { allow_private_network: b, ..runtime },
            _ => runtime,
        }
    } else if key == "security.allow_invalid_certificates"@ {
        match value {
            JsonValue::Bool(b) => RuntimeSettings { allow_invalid_certificates: b, ..runtime },
            _ => runtime,
        }
    } else {
        runtime
    }
}

/// The two relaxation switches stay independent: storing either leaves the
/// other as it was, and leaves every other setting alone.
pub proof fn law_relaxation_switches_independent(runtime: RuntimeSettings, value: JsonValue)
    ensures
        applied_setting(runtime, ALLOW_PRIVATE_NETWORK_SETTING@, value).allow_invalid_certificates
            == runtime.allow_invalid_certificates,
        applied_setting(runtime, ALLOW_INVALID_CERTIFICATES_SETTING@, value).allow_private_network
            == runtime.allow_private_network,
        applied_setting(runtime, ALLOW_PRIVATE_NETWORK_SETTING@, value).ga_key == runtime.ga_key,
        applied_setting(runtime, ALLOW_INVALID_CERTIFICATES_SETTING@, value).ga_key == runtime.ga_key,
{
    reveal_strlit("require_email_verification");
    reveal_strlit("ga_key");
    reveal_strlit("logs.retention_days");
    reveal_strlit("security.allow_private_network");
    reveal_strlit("security.allow_invalid_certificates");
    assert("security.allow_private_network"@[0] != "require_email_verification"@[0]);
    assert("security.allow_private_network"@[0] != "ga_key"@[0]);
    assert("security.allow_private_network"@[0] != "logs.retention_days"@[0]);
    assert("security.allow_invalid_certificates"@[0] != "require_email_verification"@[0]);
    assert("security.allow_invalid_certificates"@[0] != "ga_key"@[0]);
    assert("security.allow_invalid_certificates"@[0] != "logs.retention_days"@[0]);
    assert("security.allow_invalid_certificates"@[15] != "security.allow_private_network"@[15]);
}

/// The switches fail closed: a stored value that is not a boolean enables
/// nothing.
pub proof fn law_switches_fail_closed(runtime: RuntimeSettings, key: Seq<char>, value: JsonValue)
    requires
        !(value is Bool),
    ensures
        applied_setting(runtime, key, value).allow_private_network == runtime.allow_private_network,
        applied_setting(runtime, key, value).allow_invalid_certificates
            == runtime.allow_invalid_certificates,
{
}

/// A key the server does not know changes nothing.
pub proof fn law_unknown_setting_is_ignored(runtime: RuntimeSettings, key: Seq<char>, value: JsonValue)
    requires
        key != "require_email_verification"@,
        key != "ga_key"@,
        key != "logs.retention_days"@,
        key != ALLOW_PRIVATE_NETWORK_SETTING@,
        key != ALLOW_INVALID_CERTIFICATES_SETTING@,
    ensures
        applied_setting(runtime, key, value) == runtime,
{
}

fn key_is(key: &Vec<char>, name: &str) -> (r: bool)
    ensures
        r == (key@ == name@),
{
    let n = chars_of(name);
    crate::text::chars_eq(key.as_slice(), n.as_slice())
}

/// Apply one stored `site_settings` row to the runtime snapshot. The one
/// place a stored key turns into behaviour.
pub fn apply_runtime_setting(runtime: &mut RuntimeSettings, key: &str, value: &JsonValue)
    ensures
        *final(runtime) == applied_setting(*old(runtime), key@, *value),
{
    let k = chars_of(key);
    if key_is(&k, "require_email_verification") {
        if let Some(v) = value.as_bool() {
            runtime.require_email_verification = v;
        }
    } else if key_is(&k, "ga_key") {
        if let Some(v) = value.as_str() {
            runtime.ga_key = Some(v.clone());
        }
    } else if key_is(&k, "logs.retention_days") {
        if let Some(v) = value.as_i64() {
            runtime.log_retention_days = if v < 0 {
                0
            } else {
                v as u64
            };
        }
    } else if key_is(&k, "security.allow_private_network") {
        if let Some(v) = value.as_bool() {
            runtime.allow_private_network = v;
        }
    } else if key_is(&k, "security.allow_invalid_certificates") {
        if let Some(v) = value.as_bool() {
            runtime.allow_invalid_certificates = v;
        }
    }
}


/// The login policy and session settings the API works with.
#[derive(Clone, Debug)]
pub struct AuthConfig {
    pub session_ttl_secs: u64,
    pub cookie_secure: bool,
    pub login_rate_limit_attempts: u32,
    pub login_rate_limit_window_secs: u64,
    /// Public login-policy snapshot (no secrets).
    pub public: PublicAuthConfig,
    /// OIDC provider settings.
    pub oidc: OidcConfig,
}

impl Default for AuthConfig {
    fn default() -> (r: Self)
        ensures
            r.session_ttl_secs == 604800,
            !r.cookie_secure,
            r.login_rate_limit_attempts == 5,
            r.login_rate_limit_window_secs == 60,
            r.public.auth_mode@ == "local"@,
            r.public.local_login_enabled,
            !r.public.oidc_enabled,
            r.public.oidc_provider_name@ == Seq::<char>::empty(),
            !r.public.header_auth_enabled,
            r.oidc.issuer@ == Seq::<char>::empty(),
    {
        AuthConfig {
            session_ttl_secs: 604800,
            cookie_secure: false,
            login_rate_limit_attempts: 5,
            login_rate_limit_window_secs: 60,
            public: PublicAuthConfig {
                auth_mode: "local",
                local_login_enabled: true,
                oidc_enabled: false,
                oidc_provider_name: String::new(),
                header_auth_enabled: false,
            },
            oidc: OidcConfig::default(),
        }
    }
}

impl AuthConfig {
    /// Whether the username/password entry points may be used.
    pub fn local_login_enabled(&self) -> (r: bool)
        ensures
            r == self.public.local_login_enabled,
    {
        self.public.local_login_enabled
    }
}

/// An API failure: its HTTP status, a stable machine-readable code, and a
/// message.
#[derive(Debug)]
pub enum ApiError {
    NotFound(&'static str, &'static str),
    Unauthorized(&'static str, &'static str),
    Forbidden(&'static str, &'static str),
    /// The request is well formed but the current state forbids it.
    Conflict(&'static str, String),
    TooManyRequests(&'static str, &'static str),
    /// A validation failure, with its reason.
    Unprocessable(String),
    /// An internal failure; its detail is logged, not shown.
    Internal(String),
}

/// The HTTP status of an error.
pub open spec fn error_status(e: ApiError) -> u16 {
    match e {
        ApiError::NotFound(_, _) => 404,
        ApiError::Unauthorized(_, _) => 401,
        ApiError::Forbidden(_, _) => 403,
        ApiError::Conflict(_, _) => 409,
        ApiError::TooManyRequests(_, _) => 429,
        ApiError::Unprocessable(_) => 422,
        ApiError::Internal(_) => 500,
    }
}

/// The machine-readable code of an error.
pub open spec fn error_code(e: ApiError) -> Seq<char> {
    match e {
        ApiError::NotFound(c, _) => c@,
        ApiError::Unauthorized(c, _) => c@,
        ApiError::Forbidden(c, _) => c@,
        ApiError::Conflict(c, _) => c@,
        ApiError::TooManyRequests(c, _) => c@,
        ApiError::Unprocessable(_) => "validation_error"@,
        ApiError::Internal(_) => "internal_error"@,
    }
}

/// The message a client sees: the error's own, except for internal errors.
pub open spec fn error_message(e: ApiError) -> Seq<char> {
    match e {
        ApiError::NotFound(_, m) => m@,
        ApiError::Unauthorized(_, m) => m@,
        ApiError::Forbidden(_, m) => m@,
        ApiError::Conflict(_, m) => m@,
        ApiError::TooManyRequests(_, m) => m@,
        ApiError::Unprocessable(m) => m@,
        ApiError::Internal(_) => "An internal error occurred"@,
    }
}

impl ApiError {
    /// A validation failure with `message`.
    pub fn unprocessable(message: String) -> (r: ApiError)
        ensures
            r == ApiError::Unprocessable(message),
    {
        ApiError::Unprocessable(message)
    }

    /// The HTTP status.
    pub fn status(&self) -> (r: u16)
        ensures
            r == error_status(*self),
    {
        match self {
            ApiError::NotFound(_, _) => 404,
            ApiError::Unauthorized(_, _) => 401,
            ApiError::Forbidden(_, _) => 403,
            ApiError::Conflict(_, _) => 409,
            ApiError::TooManyRequests(_, _) => 429,
            ApiError::Unprocessable(_) => 422,
            ApiError::Internal(_) => 500,
        }
    }

    /// The machine-readable code.
    pub fn code(&self) -> (r: &'static str)
        ensures
            r@ == error_code(*self),
    {
        match self {
            ApiError::NotFound(c, _) => c,
            ApiError::Unauthorized(c, _) => c,
            ApiError::Forbidden(c, _) => c,
            ApiError::Conflict(c, _) => c,
            ApiError::TooManyRequests(c, _) => c,
            ApiError::Unprocessable(_) => "validation_error",
            ApiError::Internal(_) => "internal_error",
        }
    }

    /// The message the client sees.
    pub fn public_message(&self) -> (r: String)
        ensures
            r@ == error_message(*self),
    {
        match self {
            ApiError::NotFound(_, m) => String::from_str(m),
            ApiError::Unauthorized(_, m) => String::from_str(m),
            ApiError::Forbidden(_, m) => String::from_str(m),
            ApiError::Conflict(_, m) => m.clone(),
            ApiError::TooManyRequests(_, m) => String::from_str(m),
            ApiError::Unprocessable(m) => m.clone(),
            ApiError::Internal(_) => String::from_str("An internal error occurred"),
        }
    }
}

/// `e` is the conflict for a template that `bound` tasks still use.
pub open spec fn in_use_error(e: ApiError, bound: i64) -> bool {
    e matches ApiError::Conflict(code, message) && code@ == "template_in_use"@ && message@
        == "Template is still used by "@ + decimal_int(bound as int)
        + " task(s); delete or re-bind them first"@
}

/// The conflict for a template that tasks still use; the message names how
/// many.
pub fn template_in_use(bound: i64) -> (r: ApiError)
    ensures
        in_use_error(r, bound),
{
    let mut m: Vec<char> = Vec::new();
    append_str(&mut m, "Template is still used by ");
    let n = i64_decimal(bound);
    append_chars(&mut m, n.as_slice());
    append_str(&mut m, " task(s); delete or re-bind them first");
    ApiError::Conflict("template_in_use", string_of(m.as_slice()))
}

/// The answer about a template the caller does not own, or that is gone:
/// the same in both cases, so that nobody learns of another user's template.
pub fn template_not_found() -> (r: ApiError)
    ensures
        r == ApiError::NotFound("template_not_found", "Template not found"),
{
    ApiError::NotFound("template_not_found", "Template not found")
}

/// What deleting a template does once the tasks bound to it are counted.
#[derive(Debug)]
pub enum TemplateDeleteStep {
    /// Answer with this error; nothing is deleted.
    Refuse(ApiError),
    /// Delete the caller's row.
    Delete,
}

/// The check before deleting a template: with `bound` tasks still bound to
/// it the delete is refused, with the 404 of a missing template when the
/// caller does not own it (`owned`, asked only then) and the conflict naming
/// the count when it does; with none, the owner-scoped delete goes ahead.
pub open spec fn delete_check_ok(bound: i64, owned: bool, r: TemplateDeleteStep) -> bool {
    if bound <= 0 {
        r is Delete
    } else if !owned {
        r == TemplateDeleteStep::Refuse(ApiError::NotFound("template_not_found", "Template not found"))
    } else {
        r matches TemplateDeleteStep::Refuse(e) && in_use_error(e, bound)
    }
}

/// Decide a template delete from the bound-task count and ownership.
pub fn template_delete_check(bound: i64, owned: bool) -> (r: TemplateDeleteStep)
    ensures
        delete_check_ok(bound, owned, r),
{
    if bound <= 0 {
        TemplateDeleteStep::Delete
    } else if !owned {
        TemplateDeleteStep::Refuse(template_not_found())
    } else {
        TemplateDeleteStep::Refuse(template_in_use(bound))
    }
}

/// The answer to the owner-scoped delete: 204 when a row went, the 404 of
/// a missing template when none did, and when the store refused it the
/// conflict if tasks were bound meanwhile (`recount`, 0 when the count
/// failed), else the refusal itself.
pub open spec fn delete_answer_ok(deleted: Result<bool, ApiError>, recount: i64, r: Result<u16, ApiError>) -> bool {
    match deleted {
        Ok(true) => r == Ok::<u16, ApiError>(204),
        Ok(false) => r == Err::<u16, ApiError>(
            ApiError::NotFound("template_not_found", "Template not found"),
        ),
        Err(cause) => if recount > 0 {
            r matches Err(e) && in_use_error(e, recount)
        } else {
            r == Err::<u16, ApiError>(cause)
        },
    }
}

/// Answer the owner-scoped delete of a template.
pub fn template_delete_answer(deleted: Result<bool, ApiError>, recount: i64) -> (r: Result<u16, ApiError>)
    ensures
        delete_answer_ok(deleted, recount, r),
{
    match deleted {
        Ok(true) => Ok(204),
        Ok(false) => Err(template_not_found()),
        Err(cause) => if recount > 0 {
            Err(template_in_use(recount))
        } else {
            Err(cause)
        },
    }
}

/// A template that tasks still use is never deleted, and one the caller
/// does not own is answered exactly as one that does not exist: the check
/// refuses it with the very error a delete that found no row gives.
pub proof fn law_unowned_template_looks_missing(
    bound: i64,
    recount: i64,
    step: TemplateDeleteStep,
    answer: Result<u16, ApiError>,
)
    requires
        bound > 0,
        delete_check_ok(bound, false, step),
        delete_answer_ok(Ok(false), recount, answer),
    ensures
        step matches TemplateDeleteStep::Refuse(e) && answer == Err::<u16, ApiError>(e),
{
}

/// While tasks are bound to a template, the check never lets its delete go
/// ahead, whoever asks.
pub proof fn law_bound_template_is_never_deleted(bound: i64, owned: bool, step: TemplateDeleteStep)
    requires
        bound > 0,
        delete_check_ok(bound, owned, step),
    ensures
        !(step is Delete),
{
}

/// The answer to a request under `/api` that no route serves.
pub fn api_not_found() -> (r: ApiError)
    ensures
        r == ApiError::NotFound("api_endpoint_not_found", "API endpoint not found"),
{
    ApiError::NotFound("api_endpoint_not_found", "API endpoint not found")
}

/// A setting key must be 1 to 128 bytes long.
pub fn ensure_setting_key(key: &str) -> (r: Result<(), ApiError>)
    ensures
        r is Ok <==> (key.len() > 0 && key.len() <= 128),
        r is Err ==> r->Err_0 == ApiError::Unprocessable(r->Err_0->Unprocessable_0)
            && r->Err_0->Unprocessable_0@ == "setting key is invalid"@,
{
    if key.len() == 0 || key.len() > 128 {
        return Err(ApiError::unprocessable(String::from_str("setting key is invalid")));
    }
    Ok(())
}

/// Refuse the username/password entry points when the deployment closed
/// them.
pub fn ensure_local_login_allowed(auth: &AuthConfig) -> (r: Result<(), ApiError>)
    ensures
        r is Ok <==> auth.public.local_login_enabled,
        r is Err ==> r->Err_0 == ApiError::Forbidden(
            r->Err_0->Forbidden_0,
            r->Err_0->Forbidden_1,
        ) && r->Err_0->Forbidden_0@ == "local_login_disabled"@,
{
    if auth.local_login_enabled() {
        Ok(())
    } else {
        Err(
            ApiError::Forbidden(
                "local_login_disabled",
                "Local username/password login is disabled on this deployment",
            ),
        )
    }
}

/// Administrator-only endpoints require the `admin` role.
pub fn require_admin_role(session: &AuthenticatedSession) -> (r: Result<(), ApiError>)
    ensures
        r is Ok <==> session.user.role@ == "admin"@,
        r is Err ==> r->Err_0 == ApiError::Forbidden(
            r->Err_0->Forbidden_0,
            r->Err_0->Forbidden_1,
        ) && r->Err_0->Forbidden_0@ == "admin_required"@,
{
    let role = chars_of(session.user.role.as_str());
    let admin = chars_of("admin");
    if crate::text::chars_eq(role.as_slice(), admin.as_slice()) {
        Ok(())
    } else {
        Err(ApiError::Forbidden("admin_required", "Administrator role required"))
    }
}


/// Name of the session cookie.
pub const SESSION_COOKIE: &'static str = "qd_session";

/// Name of the CSRF cookie.
pub const CSRF_COOKIE: &'static str = "qd_csrf";

/// The `;`-separated pieces of every `Cookie` header value, in order.
pub open spec fn cookie_pieces(values: Seq<Seq<char>>) -> Seq<Seq<char>>
    decreases values.len(),
{
    if values.len() == 0 {
        Seq::empty()
    } else {
        cookie_pieces(values.drop_last()) + split(values.last(), ";"@)
    }
}

/// The value of the first piece that reads `name=value` once trimmed.
pub open spec fn cookie_in(pieces: Seq<Seq<char>>, name: Seq<char>) -> Option<Seq<char>>
    decreases pieces.len(),
{
    if pieces.len() == 0 {
        None
    } else {
        let t = trim(pieces[0]);
        let i = find_from(t, "="@, 0);
        if i >= 0 && t.take(i) == name {
            Some(t.skip(i + 1))
        } else {
            cookie_in(pieces.drop_first(), name)
        }
    }
}

/// The cookie `name` among the `Cookie` header values.
pub open spec fn cookie_value(values: Seq<Seq<char>>, name: Seq<char>) -> Option<Seq<char>> {
    cookie_in(cookie_pieces(values), name)
}

/// Read cookie `name` from the request's `Cookie` header values.
pub fn cookie(values: &Vec<String>, name: &str) -> (r: Option<String>)
    ensures
        match r {
            Some(v) => cookie_value(crate::text::string_views(values@), name@) == Some(v@),
            None => cookie_value(crate::text::string_views(values@), name@) is None,
        },
{
    let ghost vs = crate::text::string_views(values@);
    let semi = chars_of(";");
    let mut pieces: Vec<Vec<char>> = Vec::new();
    let mut i: usize = 0;
    while i < values.len()
        invariant
            i <= values.len(),
            vs == crate::text::string_views(values@),
            semi@ == ";"@,
            views(pieces@) == cookie_pieces(vs.take(i as int)),
        decreases values.len() - i,
    {
        let v = chars_of(values[i].as_str());
        let parts = split_chars(v.as_slice(), semi.as_slice());
        let ghost before = views(pieces@);
        let mut j: usize = 0;
        while j < parts.len()
            invariant
                j <= parts.len(),
                views(pieces@) == before + views(parts@).take(j as int),
            decreases parts.len() - j,
        {
            let ghost b2 = pieces@;
            pieces.push(parts[j].clone());
            assert(views(pieces@) =~= views(b2).push(parts@[j as int]@));
            assert(views(parts@).take(j + 1) =~= views(parts@).take(j as int).push(
                parts@[j as int]@,
            ));
            j = j + 1;
        }
        proof {
            assert(views(parts@).take(parts.len() as int) =~= views(parts@));
            assert(vs.take(i + 1).drop_last() =~= vs.take(i as int));
            assert(vs.take(i + 1).last() == v@);
        }
        i = i + 1;
    }
    assert(vs.take(values.len() as int) =~= vs);
    let n = chars_of(name);
    let eq = chars_of("=");
    let mut k: usize = 0;
    assert(views(pieces@).skip(0) =~= views(pieces@));
    while k < pieces.len()
        invariant
            k <= pieces.len(),
            vs == crate::text::string_views(values@),
            n@ == name@,
            eq@ == "="@,
            cookie_value(vs, name@) == cookie_in(views(pieces@).skip(k as int), name@),
        decreases pieces.len() - k,
    {
        let t = trim_chars(pieces[k].as_slice());
        proof {
            crate::text::lemma_find_from(t@, eq@, 0);
            reveal_strlit("=");
        }
        assert(views(pieces@).skip(k as int)[0] == pieces@[k as int]@);
        assert(views(pieces@).skip(k as int).drop_first() =~= views(pieces@).skip(k + 1));
        match find_chars_from(t.as_slice(), eq.as_slice(), 0) {
            Some(at) => {
                assert(eq@.len() == 1);
                let tl = t.len();
                assert(at + 1 <= tl);
                let key = sub_chars(t.as_slice(), 0, at);
                assert(key@ =~= t@.take(at as int));
                if chars_eq(key.as_slice(), n.as_slice()) {
                    let after: usize = at + 1;
                    let value = sub_chars(t.as_slice(), after, t.len());
                    assert(value@ =~= t@.skip(at + 1));
                    assert(cookie_in(views(pieces@).skip(k as int), name@) == Some(t@.skip(at + 1)));
                    return Some(string_of(value.as_slice()));
                }
            },
            None => {},
        }
        k = k + 1;
    }
    None
}

/// Whether a request passes the double-submit CSRF check: the `qd_csrf`
/// cookie and the `x-csrf-token` header carry the same token, and its hash is
/// the one stored with the session.
pub open spec fn csrf_ok(
    cookie_values: Seq<Seq<char>>,
    header_token: Option<Seq<char>>,
    csrf_token_hash: Seq<char>,
) -> bool {
    match (cookie_value(cookie_values, "qd_csrf"@), header_token) {
        (Some(c), Some(h)) => c == h && token_digest(h) == csrf_token_hash,
        _ => false,
    }
}

/// The double-submit CSRF check, in constant time.
pub fn require_csrf(
    cookie_values: &Vec<String>,
    header_token: Option<&str>,
    session: &AuthenticatedSession,
) -> (r: Result<(), ApiError>)
    ensures
        r is Ok <==> csrf_ok(
            crate::text::string_views(cookie_values@),
            match header_token {
                Some(h) => Some(h@),
                None => None,
            },
            session.csrf_token_hash@,
        ),
        r is Err ==> r->Err_0 == ApiError::Forbidden(
            r->Err_0->Forbidden_0,
            r->Err_0->Forbidden_1,
        ) && r->Err_0->Forbidden_0@ == "csrf_validation_failed"@,
{
    let cookie_token = match cookie(cookie_values, CSRF_COOKIE) {
        Some(c) => c,
        None => {
            return Err(ApiError::Forbidden("csrf_validation_failed", "CSRF validation failed"));
        },
    };
    let header_token = match header_token {
        Some(h) => h,
        None => {
            return Err(ApiError::Forbidden("csrf_validation_failed", "CSRF validation failed"));
        },
    };
    let same_token = constant_time_eq(cookie_token.as_str().as_bytes(), header_token.as_bytes());
    let expected_hash = token_hash(header_token);
    let valid_hash = constant_time_eq(
        expected_hash.as_str().as_bytes(),
        session.csrf_token_hash.as_str().as_bytes(),
    );
    proof {
        vstd::utf8::encode_utf8_decode_utf8(cookie_token@);
        vstd::utf8::encode_utf8_decode_utf8(header_token@);
        vstd::utf8::encode_utf8_decode_utf8(expected_hash@);
        vstd::utf8::encode_utf8_decode_utf8(session.csrf_token_hash@);
    }
    if same_token && valid_hash {
        Ok(())
    } else {
        Err(ApiError::Forbidden("csrf_validation_failed", "CSRF validation failed"))
    }
}

/// The `Secure` attribute suffix.
pub open spec fn secure_suffix(secure: bool) -> Seq<char> {
    if secure {
        "; Secure"@
    } else {
        Seq::empty()
    }
}

fn push_secure(out: &mut Vec<char>, secure: bool)
    ensures
        final(out)@ == old(out)@ + secure_suffix(secure),
{
    if secure {
        append_str(out, "; Secure");
    } else {
        assert(old(out)@ + Seq::<char>::empty() =~= old(out)@);
    }
}

/// The two `Set-Cookie` values that hand a new session to the browser: the
/// HttpOnly session cookie and the script-readable CSRF cookie, both strict
/// same-site and living as long as the session.
pub fn session_cookies(session: &IssuedSession, config: &AuthConfig) -> (r: (String, String))
    ensures
        r.0@ == "qd_session="@ + session.session_token@ + "; Path=/; HttpOnly; SameSite=Strict; Max-Age="@
            + decimal(config.session_ttl_secs as nat) + secure_suffix(config.cookie_secure),
        r.1@ == "qd_csrf="@ + session.csrf_token@ + "; Path=/; SameSite=Strict; Max-Age="@
            + decimal(config.session_ttl_secs as nat) + secure_suffix(config.cookie_secure),
{
    let age = u64_decimal(config.session_ttl_secs);
    let mut a: Vec<char> = Vec::new();
    append_str(&mut a, "qd_session=");
    append_str(&mut a, session.session_token.as_str());
    append_str(&mut a, "; Path=/; HttpOnly; SameSite=Strict; Max-Age=");
    append_chars(&mut a, age.as_slice());
    push_secure(&mut a, config.cookie_secure);
    let mut b: Vec<char> = Vec::new();
    append_str(&mut b, "qd_csrf=");
    append_str(&mut b, session.csrf_token.as_str());
    append_str(&mut b, "; Path=/; SameSite=Strict; Max-Age=");
    append_chars(&mut b, age.as_slice());
    push_secure(&mut b, config.cookie_secure);
    (string_of(a.as_slice()), string_of(b.as_slice()))
}

/// The two `Set-Cookie` values that clear the session and CSRF cookies.
pub fn clear_cookies(secure: bool) -> (r: (String, String))
    ensures
        r.0@ == "qd_session=; Path=/; HttpOnly; SameSite=Strict; Max-Age=0"@ + secure_suffix(
            secure,
        ),
        r.1@ == "qd_csrf=; Path=/; SameSite=Strict; Max-Age=0"@ + secure_suffix(secure),
{
    let mut a: Vec<char> = Vec::new();
    append_str(&mut a, "qd_session=; Path=/; HttpOnly; SameSite=Strict; Max-Age=0");
    push_secure(&mut a, secure);
    let mut b: Vec<char> = Vec::new();
    append_str(&mut b, "qd_csrf=; Path=/; SameSite=Strict; Max-Age=0");
    push_secure(&mut b, secure);
    (string_of(a.as_slice()), string_of(b.as_slice()))
}

/// The `Cookie` request header carrying a just-issued session, after any
/// cookies the request already had.
pub fn merged_cookie_header(existing: Option<&str>, issued: &IssuedSession) -> (r: String)
    ensures
        ({
            let combined = "qd_session="@ + issued.session_token@ + "; qd_csrf="@
                + issued.csrf_token@;
            r@ == match existing {
                Some(e) if e@.len() > 0 => e@ + "; "@ + combined,
                _ => combined,
            }
        }),
{
    let mut out: Vec<char> = Vec::new();
    match existing {
        Some(e) => {
            if !e.is_empty() {
                append_str(&mut out, e);
                append_str(&mut out, "; ");
            }
        },
        None => {},
    }
    append_str(&mut out, "qd_session=");
    append_str(&mut out, issued.session_token.as_str());
    append_str(&mut out, "; qd_csrf=");
    append_str(&mut out, issued.csrf_token.as_str());
    string_of(out.as_slice())
}

/// Where the browser lands after the OIDC callback: the site root, with the
/// failure code as `login_error` when there is one.
pub fn callback_location(base_path: &str, error: Option<&str>) -> (r: String)
    ensures
        r@ == trim_end_char(base_path@, '/') + match error {
            Some(code) => "/?login_error="@ + code@,
            None => "/"@,
        },
{
    let bp = chars_of(base_path);
    let mut out = chars_trim_end_char(bp.as_slice(), '/');
    match error {
        Some(code) => {
            append_str(&mut out, "/?login_error=");
            append_str(&mut out, code);
        },
        None => {
            append_str(&mut out, "/");
        },
    }
    string_of(out.as_slice())
}

/// A run's progress as pushed to the browser: a status change or a step.
#[derive(Debug)]
pub struct RunEvent {
    pub run_id: i64,
    /// `status` or `step`.
    pub kind: &'static str,
    pub status: Option<String>,
    pub step: Option<JsonValue>,
    pub error: Option<String>,
}

/// The settings a configuration file reloads: its boolean
/// `require_email_verification`, its integer `log_retention_days` (negative
/// meaning zero) and its string `ga_key`, each only when present with that
/// type.
pub open spec fn file_settings(runtime: RuntimeSettings, file: JsonValue) -> RuntimeSettings {
    let a = match json_bool(file, "require_email_verification"@) {
        Some(v) => RuntimeSettings { require_email_verification: v, ..runtime },
        None => runtime,
    };
    let b = match crate::json::json_i64(file, "log_retention_days"@) {
        Some(v) => RuntimeSettings {
            log_retention_days: if v < 0 {
                0
            } else {
                v as u64
            },
            ..a
        },
        None => a,
    };
    match file.spec_get("ga_key"@) {
        Some(JsonValue::Str(k)) => RuntimeSettings { ga_key: Some(k), ..b },
        _ => b,
    }
}

/// Reload the runtime settings a configuration file holds.
pub fn apply_file_settings(runtime: &mut RuntimeSettings, file: &JsonValue)
    ensures
        *final(runtime) == file_settings(*old(runtime), *file),
{
    if let Some(v) = crate::json::get_bool(file, "require_email_verification") {
        runtime.require_email_verification = v;
    }
    if let Some(v) = crate::json::get_i64(file, "log_retention_days") {
        runtime.log_retention_days = if v < 0 {
            0
        } else {
            v as u64
        };
    }
    match file.get("ga_key") {
        Some(JsonValue::Str(k)) => {
            runtime.ga_key = Some(k.clone());
        },
        _ => {},
    }
}

/// `n` as `width` lowercase hexadecimal digits (the low ones).
pub open spec fn hex_fixed(n: nat, width: nat) -> Seq<char>
    decreases width,
{
    if width == 0 {
        Seq::empty()
    } else {
        hex_fixed(n / 16, (width - 1) as nat).push(crate::auth::hex_digit((n % 16) as u8))
    }
}

/// The id of the `n`th failed request: `req-` and 16 hex digits.
pub fn request_id(n: u64) -> (r: String)
    ensures
        r@ == "req-"@ + hex_fixed(n as nat, 16),
{
    let mut digits: Vec<char> = Vec::new();
    let mut k: u64 = n;
    let mut w: usize = 0;
    while w < 16
        invariant
            w <= 16,
            digits@.len() == w,
            hex_fixed(n as nat, 16) == hex_fixed(k as nat, (16 - w) as nat) + digits@,
        decreases 16 - w,
    {
        let d = (k % 16) as u8;
        let c = crate::auth::hex_char(d);
        let ghost before = digits@;
        digits.insert(0, c);
        proof {
            assert(digits@ =~= seq![c] + before);
            assert(hex_fixed(k as nat, (16 - w) as nat) == hex_fixed((k / 16) as nat, (16 - w - 1) as nat).push(c));
            assert(hex_fixed((k / 16) as nat, (16 - w - 1) as nat).push(c) + before =~= hex_fixed(
                (k / 16) as nat,
                (16 - w - 1) as nat,
            ) + digits@);
        }
        k = k / 16;
        w = w + 1;
    }
    assert(hex_fixed(k as nat, 0) =~= Seq::<char>::empty());
    assert(Seq::<char>::empty() + digits@ =~= digits@);
    let mut out = chars_of("req-");
    append_chars(&mut out, digits.as_slice());
    string_of(out.as_slice())
}

impl ApiError {
    /// The JSON body an error answers with: its code, the public message, no
    /// field errors, and the request id.
    pub fn body(&self, request_id: &str) -> (r: JsonValue)
        ensures
            crate::json::model_of(r) == crate::json::JsonModel::Object(
                seq![
                    ("code"@, crate::json::JsonModel::Str(error_code(*self))),
                    ("message"@, crate::json::JsonModel::Str(error_message(*self))),
                    ("field_errors"@, crate::json::JsonModel::Object(Seq::empty())),
                    ("request_id"@, crate::json::JsonModel::Str(request_id@)),
                ],
            ),
    {
        let mut fields: Vec<(String, JsonValue)> = Vec::new();
        let code = self.code();
        let message = self.public_message();
        crate::json::push_member(&mut fields, "code", crate::json::json_string(code));
        crate::json::push_member(&mut fields, "message", crate::json::json_string(message.as_str()));
        let empty: Vec<(String, JsonValue)> = Vec::new();
        let ghost ev = empty@;
        let errors = JsonValue::Object(empty);
        assert(crate::json::members_of(ev) =~= Seq::<(Seq<char>, crate::json::JsonModel)>::empty());
        crate::json::push_member(&mut fields, "field_errors", errors);
        crate::json::push_member(&mut fields, "request_id", crate::json::json_string(request_id));
        let ghost fv = fields@;
        let r = JsonValue::Object(fields);
        assert(crate::json::model_of(r) == crate::json::JsonModel::Object(crate::json::members_of(fv)));
        assert(crate::json::members_of(fv) =~= seq![
            ("code"@, crate::json::JsonModel::Str(error_code(*self))),
            ("message"@, crate::json::JsonModel::Str(error_message(*self))),
            ("field_errors"@, crate::json::JsonModel::Object(Seq::empty())),
            ("request_id"@, crate::json::JsonModel::Str(request_id@)),
        ]);
        r
    }
}

/// The number of rows a page of runs holds: the requested count kept within
/// 1 to 500, 100 when unset.
pub fn run_page_limit(limit: Option<i64>) -> (r: i64)
    ensures
        r == match limit {
            Some(l) => if l < 1 {
                1
            } else if l > 500 {
                500
            } else {
                l
            },
            None => 100,
        },
{
    match limit {
        Some(l) => if l < 1 {
            1
        } else if l > 500 {
            500
        } else {
            l
        },
        None => 100,
    }
}

/// A page of a listing fetched one row past its limit: the first `limit`
/// rows, and whether more follow.
pub fn page_of<T>(rows: Vec<T>, limit: usize) -> (r: (Vec<T>, bool))
    ensures
        r.1 == (rows@.len() > limit),
        r.0@ == if rows@.len() > limit {
            rows@.take(limit as int)
        } else {
            rows@
        },
{
    let mut rows = rows;
    if rows.len() > limit {
        rows.truncate(limit);
        (rows, true)
    } else {
        (rows, false)
    }
}

} // verus!
