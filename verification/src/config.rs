//! Deployment configuration: the login policy, the OIDC and header-auth
//! settings, and the rules a configuration has to satisfy before the server
//! starts.

use vstd::prelude::*;

use crate::clock::{iana_zone_known, zone_is_known};
use crate::json::{
    get_bool, get_i64, get_str, get_string_array, json_bool, json_i64, json_section_bool,
    json_str, json_string_array, JsonValue,
};
use crate::text::{
    chars_eq, chars_lower, chars_of, chars_starts_with, chars_trim_end_char, lower, split,
    split_trim_nonempty, string_of, string_views, nonempty_trimmed, trim, trim_chars,
    trim_end_char, starts_with,
};

verus! {

/// Effective authentication mode. Defaults to `Local`, so an upgraded
/// deployment keeps its login behaviour; external providers only join once
/// the deployer enables them.
#[derive(Clone, Copy, Debug, PartialEq, Eq, Structural)]
pub enum AuthMode {
    /// Local username/password only.
    Local,
    /// Local plus the enabled external providers.
    Hybrid,
    /// IdP only: the local login entry points are closed.
    Oidc,
}

/// Why a configuration was refused.
#[derive(Clone, Debug, PartialEq, Eq)]
pub enum ConfigError {
    /// An `auth_mode` other than local, hybrid or oidc (the normalized text).
    InvalidAuthMode(String),
    /// A `bind` address that is not an IP address.
    InvalidBind,
    MinConnectionsExceedMax,
    EmptyPool,
    ZeroSessionTtl,
    ZeroAcquireTimeout,
    ZeroIdleTimeout,
    NoLoginAttempts,
    ZeroLoginWindow,
    InvalidTimezone,
    /// The mode leans on an external provider but none is enabled.
    ProviderRequired(AuthMode),
    OidcIssuerMissing,
    OidcClientIdMissing,
    OidcClientSecretMissing,
    InvalidOidcRole,
    /// Header auth on, a trusted proxy required, and none configured.
    UntrustedHeaderAuth,
    InvalidHeaderRole,
    /// An environment variable whose value does not parse (its name).
    InvalidVariable(String),
    /// `QDRUST_HEADER_TRUSTED_PROXIES` holds an entry that is not an IP address.
    InvalidTrustedProxies,
}

/// The normalized spelling `AuthMode::parse` matches on.
pub open spec fn auth_mode_key(raw: Seq<char>) -> Seq<char> {
    lower(trim(raw))
}

/// What `AuthMode::parse` yields for `raw`.
pub open spec fn auth_mode_of(raw: Seq<char>) -> Option<AuthMode> {
    let k = auth_mode_key(raw);
    if k == Seq::<char>::empty() || k == "local"@ {
        Some(AuthMode::Local)
    } else if k == "hybrid"@ {
        Some(AuthMode::Hybrid)
    } else if k == "oidc"@ {
        Some(AuthMode::Oidc)
    } else {
        None
    }
}

/// The lowercase name of a mode.
pub open spec fn auth_mode_name(m: AuthMode) -> Seq<char> {
    match m {
        AuthMode::Local => "local"@,
        AuthMode::Hybrid => "hybrid"@,
        AuthMode::Oidc => "oidc"@,
    }
}

impl AuthMode {
    /// Parse a configured mode, case-insensitively and ignoring surrounding
    /// whitespace. Empty means unset and yields `Local`.
    pub fn parse(raw: &str) -> (r: Result<AuthMode, ConfigError>)
        ensures
            match r {
                Ok(m) => auth_mode_of(raw@) == Some(m),
                Err(e) => auth_mode_of(raw@) is None && e == ConfigError::InvalidAuthMode(
                    e->InvalidAuthMode_0,
                ) && e->InvalidAuthMode_0@ == auth_mode_key(raw@),
            },
    {
        let v = chars_of(raw);
        let t = trim_chars(v.as_slice());
        let k = chars_lower(t.as_slice());
        let local = chars_of("local");
        let hybrid = chars_of("hybrid");
        let oidc = chars_of("oidc");
        if k.len() == 0 || chars_eq(k.as_slice(), local.as_slice()) {
            proof {
                if k.len() == 0 {
                    assert(k@ =~= Seq::<char>::empty());
                }
            }
            Ok(AuthMode::Local)
        } else if chars_eq(k.as_slice(), hybrid.as_slice()) {
            Ok(AuthMode::Hybrid)
        } else if chars_eq(k.as_slice(), oidc.as_slice()) {
            Ok(AuthMode::Oidc)
        } else {
            proof {
                assert(k@ != Seq::<char>::empty());
            }
            Err(ConfigError::InvalidAuthMode(string_of(k.as_slice())))
        }
    }

    /// The lowercase name of the mode.
    pub fn as_str(self) -> (r: &'static str)
        ensures
            r@ == auth_mode_name(self),
    {
        match self {
            AuthMode::Local => "local",
            AuthMode::Hybrid => "hybrid",
            AuthMode::Oidc => "oidc",
        }
    }
}


/// An IP address: IPv4 as its 32-bit value, IPv6 as its 128-bit value.
/// Addresses are parsed from text by the caller (`std::net` stays outside the
/// library).
#[derive(Clone, Copy, Debug, PartialEq, Eq, Structural)]
pub enum IpAddress {
    V4(u32),
    V6(u128),
}

/// Whether two addresses are the same.
pub fn ip_eq(a: IpAddress, b: IpAddress) -> (r: bool)
    ensures
        r == (a == b),
{
    match (a, b) {
        (IpAddress::V4(x), IpAddress::V4(y)) => x == y,
        (IpAddress::V6(x), IpAddress::V6(y)) => x == y,
        _ => false,
    }
}

/// Public (browser-safe) snapshot of the login policy. Holds no secret.
#[derive(Clone, Debug, PartialEq, Eq)]
pub struct PublicAuthConfig {
    pub auth_mode: &'static str,
    /// Whether the username/password entry points are reachable.
    pub local_login_enabled: bool,
    pub oidc_enabled: bool,
    /// Display name of the SSO button; empty unless OIDC is enabled.
    pub oidc_provider_name: String,
    pub header_auth_enabled: bool,
}

/// OIDC provider settings for the authorization-code + PKCE flow.
#[derive(Clone, Debug)]
pub struct OidcConfig {
    pub issuer: String,
    pub client_id: String,
    pub client_secret: String,
    /// Explicit redirect URI; empty means derived per request.
    pub redirect_uri: String,
    /// Space/comma/semicolon separated scopes.
    pub scopes: String,
    pub auto_create_users: bool,
    pub default_role: String,
    pub admin_groups: Vec<String>,
}

impl Default for OidcConfig {
    fn default() -> (r: Self)
        ensures
            r.issuer@ == Seq::<char>::empty(),
            r.client_id@ == Seq::<char>::empty(),
            r.client_secret@ == Seq::<char>::empty(),
            r.redirect_uri@ == Seq::<char>::empty(),
            r.scopes@ == "openid profile email"@,
            r.auto_create_users,
            r.default_role@ == "user"@,
            r.admin_groups@.len() == 0,
    {
        OidcConfig {
            issuer: String::new(),
            client_id: String::new(),
            client_secret: String::new(),
            redirect_uri: String::new(),
            scopes: String::from_str("openid profile email"),
            auto_create_users: true,
            default_role: String::from_str("user"),
            admin_groups: Vec::new(),
        }
    }
}

/// Trusted reverse-proxy header authentication settings. Identity headers are
/// honoured only from a configured trusted proxy.
#[derive(Clone, Debug)]
pub struct HeaderAuthConfig {
    pub user_header: String,
    pub email_header: String,
    pub groups_header: String,
    /// Separator of the groups header.
    pub groups_separator: String,
    /// Source addresses allowed to set identity headers.
    pub trusted_proxies: Vec<IpAddress>,
    /// Refuse to start with header auth on and no trusted proxy.
    pub trusted_proxy_required: bool,
    pub auto_create_users: bool,
    pub default_role: String,
    pub admin_groups: Vec<String>,
}

impl HeaderAuthConfig {
    /// The defaults: `Remote-User` / `Remote-Email` / `Remote-Groups`, comma
    /// separated, a trusted proxy required, no auto-provisioning, role `user`.
    pub fn new() -> (r: Self)
        ensures
            r.user_header@ == "Remote-User"@,
            r.email_header@ == "Remote-Email"@,
            r.groups_header@ == "Remote-Groups"@,
            r.groups_separator@ == ","@,
            r.trusted_proxies@.len() == 0,
            r.trusted_proxy_required,
            !r.auto_create_users,
            r.default_role@ == "user"@,
            r.admin_groups@.len() == 0,
    {
        HeaderAuthConfig {
            user_header: String::from_str("Remote-User"),
            email_header: String::from_str("Remote-Email"),
            groups_header: String::from_str("Remote-Groups"),
            groups_separator: String::from_str(","),
            trusted_proxies: Vec::new(),
            trusted_proxy_required: true,
            auto_create_users: false,
            default_role: String::from_str("user"),
            admin_groups: Vec::new(),
        }
    }
}

impl Default for HeaderAuthConfig {
    fn default() -> (r: Self)
        ensures
            r.user_header@ == "Remote-User"@,
            r.email_header@ == "Remote-Email"@,
            r.groups_header@ == "Remote-Groups"@,
            r.groups_separator@ == ","@,
            r.trusted_proxies@.len() == 0,
            r.trusted_proxy_required,
            !r.auto_create_users,
            r.default_role@ == "user"@,
            r.admin_groups@.len() == 0,
    {
        HeaderAuthConfig::new()
    }
}

/// The server configuration. Durations are in seconds.
#[derive(Clone, Debug)]
pub struct Config {
    pub bind: IpAddress,
    pub port: u16,
    pub database_url: String,
    pub database_min_connections: u32,
    pub database_max_connections: u32,
    pub scheduler_interval_secs: u64,
    pub request_timeout_secs: u64,
    pub session_ttl_secs: u64,
    pub cookie_secure: bool,
    pub database_acquire_timeout_secs: u64,
    pub database_idle_timeout_secs: u64,
    pub login_rate_limit_attempts: u32,
    pub login_rate_limit_window_secs: u64,
    pub log_retention_days: u64,
    pub ga_key: Option<String>,
    pub require_email_verification: bool,
    pub subscription_sync_interval_secs: u64,
    /// IANA zone for cron scheduling when a task sets none; empty until
    /// validated, which falls back to `Asia/Shanghai`.
    pub default_timezone: String,
    /// URL sub-path the site is served under; empty means the root.
    pub base_path: String,
    pub auth_mode: AuthMode,
    /// Force-switch for the local entry points in `Oidc` mode.
    pub local_login_enabled: bool,
    pub oidc_enabled: bool,
    pub oidc_provider_name: String,
    pub header_auth_enabled: bool,
    pub oidc: OidcConfig,
    pub header: HeaderAuthConfig,
    pub config_file: Option<String>,
}

/// Whether the local entry points are open under a mode and force-switch.
pub open spec fn local_login_open(mode: AuthMode, forced: bool) -> bool {
    match mode {
        AuthMode::Oidc => forced,
        _ => true,
    }
}

/// The role names a default role may take.
pub open spec fn is_known_role(role: Seq<char>) -> bool {
    role == "admin"@ || role == "user"@
}

/// The default time zone a validated configuration ends up with.
pub open spec fn resolved_timezone(raw: Seq<char>) -> Seq<char> {
    if trim(raw).len() == 0 {
        "Asia/Shanghai"@
    } else {
        trim(raw)
    }
}

/// The canonical base path: empty for the root, otherwise one leading slash
/// and no trailing slash.
pub open spec fn normalized_base_path(raw: Seq<char>) -> Seq<char> {
    let t = trim(raw);
    if t.len() == 0 || t == "/"@ {
        Seq::empty()
    } else {
        let s = trim_end_char(t, '/');
        if starts_with(s, "/"@) {
            s
        } else {
            seq!['/'] + s
        }
    }
}

/// The first rule a configuration breaks, in the order they are checked.
pub open spec fn config_violation(c: Config) -> Option<ConfigError> {
    if c.database_min_connections > c.database_max_connections {
        Some(ConfigError::MinConnectionsExceedMax)
    } else if c.database_max_connections == 0 {
        Some(ConfigError::EmptyPool)
    } else if c.session_ttl_secs == 0 {
        Some(ConfigError::ZeroSessionTtl)
    } else if c.database_acquire_timeout_secs == 0 {
        Some(ConfigError::ZeroAcquireTimeout)
    } else if c.database_idle_timeout_secs == 0 {
        Some(ConfigError::ZeroIdleTimeout)
    } else if c.login_rate_limit_attempts == 0 {
        Some(ConfigError::NoLoginAttempts)
    } else if c.login_rate_limit_window_secs == 0 {
        Some(ConfigError::ZeroLoginWindow)
    } else if !iana_zone_known(resolved_timezone(c.default_timezone@)) {
        Some(ConfigError::InvalidTimezone)
    } else if !c.oidc_enabled && (c.auth_mode == AuthMode::Oidc || c.auth_mode
        == AuthMode::Hybrid) {
        Some(ConfigError::ProviderRequired(c.auth_mode))
    } else if c.oidc_enabled && trim(c.oidc.issuer@).len() == 0 {
        Some(ConfigError::OidcIssuerMissing)
    } else if c.oidc_enabled && trim(c.oidc.client_id@).len() == 0 {
        Some(ConfigError::OidcClientIdMissing)
    } else if c.oidc_enabled && trim(c.oidc.client_secret@).len() == 0 {
        Some(ConfigError::OidcClientSecretMissing)
    } else if !is_known_role(c.oidc.default_role@) {
        Some(ConfigError::InvalidOidcRole)
    } else if c.header_auth_enabled && c.header.trusted_proxy_required
        && c.header.trusted_proxies@.len() == 0 {
        Some(ConfigError::UntrustedHeaderAuth)
    } else if !is_known_role(c.header.default_role@) {
        Some(ConfigError::InvalidHeaderRole)
    } else {
        None
    }
}

/// A normalized base path is empty, or starts with `/` and does not end with
/// one (for every input except those that trim to two or more slashes and
/// nothing else).
pub proof fn law_base_path_form(raw: Seq<char>)
    requires
        trim(raw).len() < 2 || exists|j: int| 0 <= j < trim(raw).len() && trim(raw)[j] != '/',
    ensures
        ({
            let y = normalized_base_path(raw);
            y.len() == 0 || (y[0] == '/' && y.last() != '/')
        }),
{
    reveal_strlit("/");
    let t = trim(raw);
    if t.len() == 0 || t == "/"@ {
    } else {
        crate::text::lemma_trailing_shape(t, '/');
        let tc = crate::text::trailing_count(t, '/');
        if tc == t.len() {
            if t.len() >= 2 {
                let j = choose|j: int| 0 <= j < t.len() && t[j] != '/';
                assert(t[j] == '/');
            } else {
                assert(t =~= "/"@);
            }
        }
        let s = trim_end_char(t, '/');
        assert(s.len() > 0);
        assert(s.last() == t[t.len() - tc - 1]);
        if starts_with(s, "/"@) {
            assert(s.subrange(0, 1)[0] == s[0]);
        } else {
            let y = seq!['/'] + s;
            assert(y.last() == s.last());
        }
    }
}

/// Normalizing a normalized base path changes nothing, for every input whose
/// normalized form does not end in `/` or in white space (the exceptions:
/// inputs that trim to slashes only, which give `/`, and inputs such as
/// `a /` whose last character before the trailing slashes is white space).
pub proof fn law_base_path_is_stable(raw: Seq<char>)
    requires
        normalized_base_path(raw).len() == 0 || (normalized_base_path(raw).last() != '/'
            && !crate::text::is_ws(normalized_base_path(raw).last())),
    ensures
        normalized_base_path(normalized_base_path(raw)) == normalized_base_path(raw),
{
    reveal_strlit("/");
    let y = normalized_base_path(raw);
    if y.len() > 0 {
        let t = trim(raw);
        let s = trim_end_char(t, '/');
        if starts_with(s, "/"@) {
            assert(y == s);
            assert(s.subrange(0, 1)[0] == s[0]);
        } else {
            assert(y =~= seq!['/'] + s);
        }
        assert(y[0] == '/');
        assert(!crate::text::is_ws(y[0]));
        crate::text::lemma_trim_unchanged(y);
        assert(y != "/"@);
        crate::text::lemma_trailing_count(y, '/', 0);
        assert(trim_end_char(y, '/') =~= y);
        assert(y.subrange(0, 1) =~= "/"@);
    }
}

/// What the checks give back passes them again unchanged: a configuration
/// `r` that `validate` returned for `c` breaks no rule, its time zone is
/// already resolved, and its base path already normalized wherever the base
/// path is stable (see `law_base_path_is_stable` for the exceptions).
pub proof fn law_validation_is_stable(c: Config, r: Config)
    requires
        config_violation(c) is None,
        r.default_timezone@ == resolved_timezone(c.default_timezone@),
        r.base_path@ == normalized_base_path(c.base_path@),
        r == (Config { default_timezone: r.default_timezone, base_path: r.base_path, ..c }),
        normalized_base_path(c.base_path@).len() == 0 || (normalized_base_path(c.base_path@).last()
            != '/' && !crate::text::is_ws(normalized_base_path(c.base_path@).last())),
    ensures
        config_violation(r) is None,
        resolved_timezone(r.default_timezone@) == r.default_timezone@,
        normalized_base_path(r.base_path@) == r.base_path@,
{
    reveal_strlit("Asia/Shanghai");
    let raw = c.default_timezone@;
    if trim(raw).len() == 0 {
        crate::text::lemma_trim_unchanged("Asia/Shanghai"@);
    } else {
        crate::text::lemma_trim_idempotent(raw);
    }
    law_base_path_is_stable(c.base_path@);
}

/// The name of a mode parses back to that mode.
pub proof fn law_auth_mode_round_trip(m: AuthMode)
    ensures
        auth_mode_of(auth_mode_name(m)) == Some(m),
{
    reveal_strlit("local");
    reveal_strlit("hybrid");
    reveal_strlit("oidc");
    let n = auth_mode_name(m);
    crate::text::lemma_trim_unchanged(n);
    assert(lower(n) =~= n);
    assert(n != Seq::<char>::empty());
    match m {
        AuthMode::Local => {},
        AuthMode::Hybrid => {
            assert(n[0] != "local"@[0]);
        },
        AuthMode::Oidc => {
            assert(n[0] != "local"@[0]);
            assert(n[0] != "hybrid"@[0]);
        },
    }
}

fn is_role(role: &String) -> (r: bool)
    ensures
        r == is_known_role(role@),
{
    let v = chars_of(role.as_str());
    let admin = chars_of("admin");
    let user = chars_of("user");
    chars_eq(v.as_slice(), admin.as_slice()) || chars_eq(v.as_slice(), user.as_slice())
}

fn is_blank(s: &String) -> (r: bool)
    ensures
        r == (trim(s@).len() == 0),
{
    let v = chars_of(s.as_str());
    let t = trim_chars(v.as_slice());
    t.len() == 0
}

/// Normalize a configured base path: empty for the root (`""`, `"/"`,
/// blanks), otherwise a single leading slash and no trailing slash.
pub fn normalize_base_path(raw: &str) -> (r: String)
    ensures
        r@ == normalized_base_path(raw@),
{
    let v = chars_of(raw);
    let t = trim_chars(v.as_slice());
    let slash = chars_of("/");
    if t.len() == 0 || chars_eq(t.as_slice(), slash.as_slice()) {
        return String::new();
    }
    let s = chars_trim_end_char(t.as_slice(), '/');
    if chars_starts_with(s.as_slice(), slash.as_slice()) {
        string_of(s.as_slice())
    } else {
        let mut out: Vec<char> = Vec::new();
        out.push('/');
        crate::text::append_chars(&mut out, s.as_slice());
        assert(out@ =~= seq!['/'] + s@);
        string_of(out.as_slice())
    }
}

/// A comma-separated list: trimmed, non-empty parts.
pub fn csv_values(raw: &str) -> (r: Vec<String>)
    ensures
        string_views(r@) == nonempty_trimmed(split(raw@, ","@)),
{
    split_trim_nonempty(raw, ",")
}

/// What the startup checks give: the first rule broken, or the
/// configuration with its time zone resolved and its base path normalized.
pub open spec fn validated(s: Config, r: Result<Config, ConfigError>) -> bool {
    match r {
        Ok(c) => {
            &&& config_violation(s) is None
            &&& c.default_timezone@ == resolved_timezone(s.default_timezone@)
            &&& c.base_path@ == normalized_base_path(s.base_path@)
            &&& c == (Config { default_timezone: c.default_timezone, base_path: c.base_path, ..s })
        },
        Err(e) => config_violation(s) == Some(e),
    }
}

impl Config {
    /// The public login-policy snapshot served to the browser.
    pub fn public_auth_config(&self) -> (r: PublicAuthConfig)
        ensures
            r.auth_mode@ == auth_mode_name(self.auth_mode),
            r.local_login_enabled == local_login_open(self.auth_mode, self.local_login_enabled),
            r.oidc_enabled == self.oidc_enabled,
            r.oidc_provider_name@ == self.oidc_provider_name@,
            r.header_auth_enabled == self.header_auth_enabled,
    {
        let local_login_enabled = match self.auth_mode {
            AuthMode::Oidc => self.local_login_enabled,
            _ => true,
        };
        PublicAuthConfig {
            auth_mode: self.auth_mode.as_str(),
            local_login_enabled,
            oidc_enabled: self.oidc_enabled,
            oidc_provider_name: self.oidc_provider_name.clone(),
            header_auth_enabled: self.header_auth_enabled,
        }
    }

    /// Check every startup rule, in order, and settle the default time zone
    /// and the base path.
    pub fn validate(self) -> (r: Result<Config, ConfigError>)
        ensures
            validated(self, r),
    {
        if self.database_min_connections > self.database_max_connections {
            return Err(ConfigError::MinConnectionsExceedMax);
        }
        if self.database_max_connections == 0 {
            return Err(ConfigError::EmptyPool);
        }
        if self.session_ttl_secs == 0 {
            return Err(ConfigError::ZeroSessionTtl);
        }
        if self.database_acquire_timeout_secs == 0 {
            return Err(ConfigError::ZeroAcquireTimeout);
        }
        if self.database_idle_timeout_secs == 0 {
            return Err(ConfigError::ZeroIdleTimeout);
        }
        if self.login_rate_limit_attempts == 0 {
            return Err(ConfigError::NoLoginAttempts);
        }
        if self.login_rate_limit_window_secs == 0 {
            return Err(ConfigError::ZeroLoginWindow);
        }
        let tz_chars = chars_of(self.default_timezone.as_str());
        let tz_trim = trim_chars(tz_chars.as_slice());
        let default_timezone = if tz_trim.len() == 0 {
            String::from_str("Asia/Shanghai")
        } else {
            string_of(tz_trim.as_slice())
        };
        if !zone_is_known(default_timezone.as_str()) {
            return Err(ConfigError::InvalidTimezone);
        }
        let base_path = normalize_base_path(self.base_path.as_str());
        if !self.oidc_enabled {
            match self.auth_mode {
                AuthMode::Oidc | AuthMode::Hybrid => {
                    return Err(ConfigError::ProviderRequired(self.auth_mode));
                },
                AuthMode::Local => {},
            }
        }
        if self.oidc_enabled {
            if is_blank(&self.oidc.issuer) {
                return Err(ConfigError::OidcIssuerMissing);
            }
            if is_blank(&self.oidc.client_id) {
                return Err(ConfigError::OidcClientIdMissing);
            }
            if is_blank(&self.oidc.client_secret) {
                return Err(ConfigError::OidcClientSecretMissing);
            }
        }
        if !is_role(&self.oidc.default_role) {
            return Err(ConfigError::InvalidOidcRole);
        }
        if self.header_auth_enabled && self.header.trusted_proxy_required
            && self.header.trusted_proxies.len() == 0 {
            return Err(ConfigError::UntrustedHeaderAuth);
        }
        if !is_role(&self.header.default_role) {
            return Err(ConfigError::InvalidHeaderRole);
        }
        Ok(Config { default_timezone, base_path, ..self })
    }
}


/// Addresses read from a configuration file, parsed by the caller: the text of
/// `bind` (`None` when the file has no `bind` string, `Some(None)` when it does
/// not parse) and the parsable entries of `header.trusted_proxies`.
#[derive(Clone, Debug)]
pub struct FileAddresses {
    pub bind: Option<Option<IpAddress>>,
    pub trusted_proxies: Vec<IpAddress>,
}

/// A string setting the file only fills in while the current value is empty.
pub open spec fn fallback_str(current: Seq<char>, file: Option<Seq<char>>) -> Seq<char> {
    if current.len() > 0 {
        current
    } else {
        match file {
            Some(f) => f,
            None => Seq::empty(),
        }
    }
}

/// Like `fallback_str`, ending at `default` when both are empty.
pub open spec fn fallback_str_or(current: Seq<char>, file: Option<Seq<char>>, default: Seq<
    char,
>) -> Seq<char> {
    if current.len() > 0 {
        current
    } else {
        let f = match file {
            Some(f) => f,
            None => Seq::empty(),
        };
        if f.len() == 0 {
            default
        } else {
            f
        }
    }
}

/// For text and list settings and the auth mode the environment wins over
/// the configuration file: a value the environment set is kept whatever the
/// file holds, and the file only fills what is still empty (or, for the
/// mode, still the default).
pub proof fn law_environment_wins_over_the_file(
    current: Seq<char>,
    file: Option<Seq<char>>,
    default: Seq<char>,
    current_list: Seq<Seq<char>>,
    file_list: Option<Seq<Seq<char>>>,
    mode: AuthMode,
)
    ensures
        mode != AuthMode::Local ==> file_auth_mode(mode, file) == Some(mode),
        current.len() > 0 ==> fallback_str(current, file) == current,
        current.len() > 0 ==> fallback_str_or(current, file, default) == current,
        current_list.len() > 0 ==> fallback_list(current_list, file_list) == current_list,
        current.len() == 0 && file is Some ==> fallback_str(current, file) == file.unwrap(),
        current_list.len() == 0 && file_list is Some ==> fallback_list(current_list, file_list)
            == file_list.unwrap(),
{
}

/// An interval in seconds the file overrides, at least one second.
pub open spec fn file_interval(current: u64, file: Option<i64>) -> u64 {
    match file {
        Some(v) => if v < 1 {
            1
        } else {
            v as u64
        },
        None => current,
    }
}

/// A port the file overrides when the value fits a `u16`.
pub open spec fn file_port(current: u16, file: Option<i64>) -> u16 {
    match file {
        Some(v) => if 0 <= v <= 65535 {
            v as u16
        } else {
            current
        },
        None => current,
    }
}

/// Retention days the file overrides, negative meaning zero.
pub open spec fn file_retention(current: u64, file: Option<i64>) -> u64 {
    match file {
        Some(v) => if v < 0 {
            0
        } else {
            v as u64
        },
        None => current,
    }
}

/// A list the file fills in while the current list is empty.
pub open spec fn fallback_list(current: Seq<Seq<char>>, file: Option<Seq<Seq<char>>>) -> Seq<
    Seq<char>,
> {
    if current.len() > 0 {
        current
    } else {
        match file {
            Some(f) => f,
            None => Seq::empty(),
        }
    }
}

/// The auth mode after a file: a mode the environment set (anything but the
/// default `local`) stays; otherwise a non-empty file value is parsed, and
/// without one the mode stays `local`.
pub open spec fn file_auth_mode(current: AuthMode, file: Option<Seq<char>>) -> Option<AuthMode> {
    if current != AuthMode::Local {
        Some(current)
    } else {
        match file {
            Some(f) => if f.len() > 0 {
                auth_mode_of(f)
            } else {
                Some(current)
            },
            None => Some(current),
        }
    }
}

/// The section `name` of `j`, or `null`.
pub open spec fn section(j: JsonValue, name: Seq<char>) -> JsonValue {
    match j.spec_get(name) {
        Some(v) => v,
        None => JsonValue::Null,
    }
}

fn fill_str(current: &String, file: Option<&String>) -> (r: String)
    ensures
        r@ == fallback_str(
            current@,
            match file {
                Some(f) => Some(f@),
                None => None,
            },
        ),
{
    if current.as_str().is_empty() == false {
        proof {
            assert(current@.len() > 0) by {
                if current@.len() == 0 {
                    assert(current@ =~= Seq::<char>::empty());
                }
            }
        }
        current.clone()
    } else {
        match file {
            Some(f) => f.clone(),
            None => String::new(),
        }
    }
}

fn fill_str_or(current: &String, file: Option<&String>, default: &str) -> (r: String)
    ensures
        r@ == fallback_str_or(
            current@,
            match file {
                Some(f) => Some(f@),
                None => None,
            },
            default@,
        ),
{
    if current.as_str().is_empty() == false {
        proof {
            assert(current@.len() > 0) by {
                if current@.len() == 0 {
                    assert(current@ =~= Seq::<char>::empty());
                }
            }
        }
        return current.clone();
    }
    let f = match file {
        Some(f) => f.clone(),
        None => String::new(),
    };
    if f.as_str().is_empty() {
        proof {
            assert(f@.len() == 0) by {
                if f@.len() > 0 {
                    assert(f@.len() == 0);
                }
            }
        }
        String::from_str(default)
    } else {
        proof {
            assert(f@.len() > 0) by {
                if f@.len() == 0 {
                    assert(f@ =~= Seq::<char>::empty());
                }
            }
        }
        f
    }
}

fn fill_interval(current: u64, file: Option<i64>) -> (r: u64)
    ensures
        r == file_interval(current, file),
{
    match file {
        Some(v) => if v < 1 {
            1
        } else {
            v as u64
        },
        None => current,
    }
}

fn fill_list(current: &Vec<String>, file: Option<Vec<String>>) -> (r: Vec<String>)
    ensures
        string_views(r@) == fallback_list(
            string_views(current@),
            match file {
                Some(f) => Some(string_views(f@)),
                None => None,
            },
        ),
{
    if current.len() > 0 {
        current.clone()
    } else {
        match file {
            Some(f) => f,
            None => Vec::new(),
        }
    }
}

fn string_ref_view(o: Option<&String>) -> (r: Ghost<Option<Seq<char>>>)
    ensures
        r@ == match o {
            Some(s) => Some(s@),
            None => None,
        },
{
    Ghost(
        match o {
            Some(s) => Some(s@),
            None => None,
        },
    )
}

/// What applying a configuration file gives: `InvalidBind` when its `bind`
/// is not an address, `InvalidAuthMode` when it names an unknown mode the
/// environment left at the default, otherwise each field as its clause says
/// (the environment wins for text and lists and a mode it set; the file sets
/// numbers and switches it holds).
pub open spec fn merged(s: Config, file: JsonValue, addresses: FileAddresses, r: Result<Config, ConfigError>) -> bool {
    match r {
        Err(e) => (addresses.bind == Some(None::<IpAddress>) && e
            == ConfigError::InvalidBind) || (addresses.bind != Some(None::<IpAddress>)
            && file_auth_mode(s.auth_mode, json_str(file, "auth_mode"@)) is None
            && e == ConfigError::InvalidAuthMode(e->InvalidAuthMode_0)
            && e->InvalidAuthMode_0@ == auth_mode_key(
            json_str(file, "auth_mode"@).unwrap())),
        Ok(c) => {
            let o = section(file, "oidc"@);
            let h = section(file, "header"@);
            &&& addresses.bind != Some(None::<IpAddress>)
            &&& c.bind == match addresses.bind {
                Some(Some(ip)) => ip,
                _ => s.bind,
            }
            &&& c.port == file_port(s.port, json_i64(file, "port"@))
            &&& c.database_url@ == fallback_str(
                s.database_url@,
                json_str(file, "database_url"@),
            )
            &&& c.database_min_connections == s.database_min_connections
            &&& c.database_max_connections == s.database_max_connections
            &&& c.scheduler_interval_secs == file_interval(
                s.scheduler_interval_secs,
                json_i64(file, "scheduler_interval_seconds"@),
            )
            &&& c.request_timeout_secs == file_interval(
                s.request_timeout_secs,
                json_i64(file, "request_timeout_seconds"@),
            )
            &&& c.session_ttl_secs == s.session_ttl_secs
            &&& c.cookie_secure == json_bool(file, "cookie_secure"@).unwrap_or(
                s.cookie_secure,
            )
            &&& c.database_acquire_timeout_secs == s.database_acquire_timeout_secs
            &&& c.database_idle_timeout_secs == s.database_idle_timeout_secs
            &&& c.login_rate_limit_attempts == s.login_rate_limit_attempts
            &&& c.login_rate_limit_window_secs == s.login_rate_limit_window_secs
            &&& c.log_retention_days == file_retention(
                s.log_retention_days,
                json_i64(file, "log_retention_days"@),
            )
            &&& match json_str(file, "ga_key"@) {
                Some(k) if k.len() > 0 => c.ga_key is Some && c.ga_key.unwrap()@ == k,
                _ => c.ga_key == s.ga_key,
            }
            &&& c.require_email_verification == json_bool(
                file,
                "require_email_verification"@,
            ).unwrap_or(s.require_email_verification)
            &&& c.subscription_sync_interval_secs == file_interval(
                s.subscription_sync_interval_secs,
                json_i64(file, "subscription_sync_interval_seconds"@),
            )
            &&& c.default_timezone@ == fallback_str(
                s.default_timezone@,
                json_str(file, "default_timezone"@),
            )
            &&& c.base_path@ == (if s.base_path@.len() == 0 {
                normalized_base_path(
                    fallback_str(Seq::empty(), json_str(file, "base_path"@)),
                )
            } else {
                s.base_path@
            })
            &&& Some(c.auth_mode) == file_auth_mode(
                s.auth_mode,
                json_str(file, "auth_mode"@),
            )
            &&& c.local_login_enabled == json_bool(
                file,
                "local_login_enabled"@,
            ).unwrap_or(s.local_login_enabled)
            &&& c.oidc_enabled == json_bool(file, "oidc_enabled"@).unwrap_or(
                s.oidc_enabled,
            )
            &&& match json_str(file, "oidc_provider_name"@) {
                Some(k) if k.len() > 0 => c.oidc_provider_name@ == k,
                _ => c.oidc_provider_name@ == s.oidc_provider_name@,
            }
            &&& c.oidc.issuer@ == fallback_str(s.oidc.issuer@, json_str(o, "issuer"@))
            &&& c.oidc.client_id@ == fallback_str(
                s.oidc.client_id@,
                json_str(o, "client_id"@),
            )
            &&& c.oidc.client_secret@ == fallback_str(
                s.oidc.client_secret@,
                json_str(o, "client_secret"@),
            )
            &&& c.oidc.redirect_uri@ == fallback_str(
                s.oidc.redirect_uri@,
                json_str(o, "redirect_uri"@),
            )
            &&& c.oidc.scopes@ == fallback_str_or(
                s.oidc.scopes@,
                json_str(o, "scopes"@),
                "openid profile email"@,
            )
            &&& c.oidc.auto_create_users == json_bool(o, "auto_create_users"@).unwrap_or(
                s.oidc.auto_create_users,
            )
            &&& c.oidc.default_role@ == fallback_str_or(
                s.oidc.default_role@,
                json_str(o, "default_role"@),
                "user"@,
            )
            &&& string_views(c.oidc.admin_groups@) == fallback_list(
                string_views(s.oidc.admin_groups@),
                json_string_array(o, "admin_groups"@),
            )
            &&& c.header_auth_enabled == json_bool(
                file,
                "header_auth_enabled"@,
            ).unwrap_or(s.header_auth_enabled)
            &&& c.header.user_header@ == fallback_str(
                s.header.user_header@,
                json_str(h, "user_header"@),
            )
            &&& c.header.email_header@ == fallback_str(
                s.header.email_header@,
                json_str(h, "email_header"@),
            )
            &&& c.header.groups_header@ == fallback_str(
                s.header.groups_header@,
                json_str(h, "groups_header"@),
            )
            &&& c.header.groups_separator@ == fallback_str_or(
                s.header.groups_separator@,
                json_str(h, "groups_separator"@),
                ","@,
            )
            &&& c.header.trusted_proxies@ == (if s.header.trusted_proxies@.len() > 0 {
                s.header.trusted_proxies@
            } else {
                addresses.trusted_proxies@
            })
            &&& c.header.trusted_proxy_required == json_bool(
                h,
                "trusted_proxy_required"@,
            ).unwrap_or(s.header.trusted_proxy_required)
            &&& c.header.auto_create_users == json_bool(h, "auto_create_users"@).unwrap_or(
                s.header.auto_create_users,
            )
            &&& c.header.default_role@ == fallback_str_or(
                s.header.default_role@,
                json_str(h, "default_role"@),
                "user"@,
            )
            &&& string_views(c.header.admin_groups@) == fallback_list(
                string_views(s.header.admin_groups@),
                json_string_array(h, "admin_groups"@),
            )
            &&& c.config_file == s.config_file
        },
    }
}

impl Config {
    /// Apply a JSON configuration file (already read and parsed). The
    /// environment wins: the file only fills what is still unset or at its
    /// default, as each field's clause says. `addresses` holds the file's
    /// addresses, parsed by the caller.
    pub fn merge_file(self, file: &JsonValue, addresses: FileAddresses) -> (r: Result<
        Config,
        ConfigError,
    >)
        requires
            addresses.bind is Some <==> json_str(*file, "bind"@) is Some,
        ensures
            merged(self, *file, addresses, r),
    {
        let bind = match addresses.bind {
            Some(Some(ip)) => ip,
            Some(None) => {
                return Err(ConfigError::InvalidBind);
            },
            None => self.bind,
        };
        let port = match get_i64(file, "port") {
            Some(v) => if 0 <= v && v <= 65535 {
                v as u16
            } else {
                self.port
            },
            None => self.port,
        };
        let database_url = fill_str(&self.database_url, get_str(file, "database_url"));
        let scheduler_interval_secs = fill_interval(
            self.scheduler_interval_secs,
            get_i64(file, "scheduler_interval_seconds"),
        );
        let request_timeout_secs = fill_interval(
            self.request_timeout_secs,
            get_i64(file, "request_timeout_seconds"),
        );
        let cookie_secure = match get_bool(file, "cookie_secure") {
            Some(b) => b,
            None => self.cookie_secure,
        };
        let log_retention_days = match get_i64(file, "log_retention_days") {
            Some(v) => if v < 0 {
                0
            } else {
                v as u64
            },
            None => self.log_retention_days,
        };
        let ga_key = match get_str(file, "ga_key") {
            Some(k) => if k.as_str().is_empty() == false {
                proof {
                    assert(k@.len() > 0) by {
                        if k@.len() == 0 {
                            assert(k@ =~= Seq::<char>::empty());
                        }
                    }
                }
                Some(k.clone())
            } else {
                self.ga_key.clone()
            },
            None => self.ga_key.clone(),
        };
        let require_email_verification = match get_bool(file, "require_email_verification") {
            Some(b) => b,
            None => self.require_email_verification,
        };
        let subscription_sync_interval_secs = fill_interval(
            self.subscription_sync_interval_secs,
            get_i64(file, "subscription_sync_interval_seconds"),
        );
        let default_timezone = fill_str(&self.default_timezone, get_str(file, "default_timezone"));
        let base_path = if self.base_path.as_str().is_empty() {
            let empty = String::new();
            let raw = fill_str(&empty, get_str(file, "base_path"));
            normalize_base_path(raw.as_str())
        } else {
            proof {
                assert(self.base_path@.len() > 0) by {
                    if self.base_path@.len() == 0 {
                        assert(self.base_path@ =~= Seq::<char>::empty());
                    }
                }
            }
            self.base_path.clone()
        };
        let env_mode_set = match self.auth_mode {
            AuthMode::Local => false,
            _ => true,
        };
        let auth_mode = if env_mode_set {
            self.auth_mode
        } else {
            match get_str(file, "auth_mode") {
            Some(f) => if f.as_str().is_empty() == false {
                proof {
                    assert(f@.len() > 0) by {
                        if f@.len() == 0 {
                            assert(f@ =~= Seq::<char>::empty());
                        }
                    }
                }
                match AuthMode::parse(f.as_str()) {
                    Ok(m) => m,
                    Err(e) => {
                        return Err(e);
                    },
                }
            } else {
                self.auth_mode
            },
            None => self.auth_mode,
            }
        };
        let local_login_enabled = match get_bool(file, "local_login_enabled") {
            Some(b) => b,
            None => self.local_login_enabled,
        };
        let oidc_enabled = match get_bool(file, "oidc_enabled") {
            Some(b) => b,
            None => self.oidc_enabled,
        };
        let oidc_provider_name = match get_str(file, "oidc_provider_name") {
            Some(k) => if k.as_str().is_empty() == false {
                proof {
                    assert(k@.len() > 0) by {
                        if k@.len() == 0 {
                            assert(k@ =~= Seq::<char>::empty());
                        }
                    }
                }
                k.clone()
            } else {
                self.oidc_provider_name.clone()
            },
            None => self.oidc_provider_name.clone(),
        };
        let null = JsonValue::Null;
        let o = match file.get("oidc") {
            Some(v) => v,
            None => &null,
        };
        let oidc = OidcConfig {
            issuer: fill_str(&self.oidc.issuer, get_str(o, "issuer")),
            client_id: fill_str(&self.oidc.client_id, get_str(o, "client_id")),
            client_secret: fill_str(&self.oidc.client_secret, get_str(o, "client_secret")),
            redirect_uri: fill_str(&self.oidc.redirect_uri, get_str(o, "redirect_uri")),
            scopes: fill_str_or(&self.oidc.scopes, get_str(o, "scopes"), "openid profile email"),
            auto_create_users: match get_bool(o, "auto_create_users") {
                Some(b) => b,
                None => self.oidc.auto_create_users,
            },
            default_role: fill_str_or(&self.oidc.default_role, get_str(o, "default_role"), "user"),
            admin_groups: fill_list(&self.oidc.admin_groups, get_string_array(o, "admin_groups")),
        };
        let header_auth_enabled = match get_bool(file, "header_auth_enabled") {
            Some(b) => b,
            None => self.header_auth_enabled,
        };
        let h = match file.get("header") {
            Some(v) => v,
            None => &null,
        };
        let header = HeaderAuthConfig {
            user_header: fill_str(&self.header.user_header, get_str(h, "user_header")),
            email_header: fill_str(&self.header.email_header, get_str(h, "email_header")),
            groups_header: fill_str(&self.header.groups_header, get_str(h, "groups_header")),
            groups_separator: fill_str_or(
                &self.header.groups_separator,
                get_str(h, "groups_separator"),
                ",",
            ),
            trusted_proxies: if self.header.trusted_proxies.len() > 0 {
                self.header.trusted_proxies.clone()
            } else {
                addresses.trusted_proxies
            },
            trusted_proxy_required: match get_bool(h, "trusted_proxy_required") {
                Some(b) => b,
                None => self.header.trusted_proxy_required,
            },
            auto_create_users: match get_bool(h, "auto_create_users") {
                Some(b) => b,
                None => self.header.auto_create_users,
            },
            default_role: fill_str_or(
                &self.header.default_role,
                get_str(h, "default_role"),
                "user",
            ),
            admin_groups: fill_list(
                &self.header.admin_groups,
                get_string_array(h, "admin_groups"),
            ),
        };
        Ok(Config {
            bind,
            port,
            database_url,
            database_min_connections: self.database_min_connections,
            database_max_connections: self.database_max_connections,
            scheduler_interval_secs,
            request_timeout_secs,
            session_ttl_secs: self.session_ttl_secs,
            cookie_secure,
            database_acquire_timeout_secs: self.database_acquire_timeout_secs,
            database_idle_timeout_secs: self.database_idle_timeout_secs,
            login_rate_limit_attempts: self.login_rate_limit_attempts,
            login_rate_limit_window_secs: self.login_rate_limit_window_secs,
            log_retention_days,
            ga_key,
            require_email_verification,
            subscription_sync_interval_secs,
            default_timezone,
            base_path,
            auth_mode,
            local_login_enabled,
            oidc_enabled,
            oidc_provider_name,
            header_auth_enabled,
            oidc,
            header,
            config_file: self.config_file,
        })
    }
}

} // verus!
