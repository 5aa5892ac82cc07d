//! Reading the configuration from the process environment. The caller reads
//! the variables and parses the IP addresses; this module applies each
//! variable's default and parse rule.

use vstd::prelude::*;

use crate::config::{
    normalize_base_path, normalized_base_path, AuthMode, Config, ConfigError, FileAddresses,
    HeaderAuthConfig, IpAddress, OidcConfig, auth_mode_key, auth_mode_of, merged, validated,
};
use crate::json::{JsonValue, json_str};
use crate::text::{
    chars_eq, chars_lower, chars_of, chars_parse_u64, lower, nonempty_trimmed, parse_u64, split,
    split_trim_nonempty, str_eq, string_views, trim, trim_chars,
};

verus! {

/// The value of variable `name` (the first entry with that name).
pub open spec fn env_value(vars: Seq<(String, String)>, name: Seq<char>) -> Option<Seq<char>>
    decreases vars.len(),
{
    if vars.len() == 0 {
        None
    } else if vars[0].0@ == name {
        Some(vars[0].1@)
    } else {
        env_value(vars.drop_first(), name)
    }
}

/// A numeric variable: its default when unset, its value when it parses and
/// is at most `max`, and `None` when it is set but invalid.
pub open spec fn env_number(vars: Seq<(String, String)>, name: Seq<char>, default: nat, max: nat) -> Option<nat> {
    match env_value(vars, name) {
        None => Some(default),
        Some(v) => match parse_u64(v) {
            Some(n) => if n <= max {
                Some(n as nat)
            } else {
                None
            },
            None => None,
        },
    }
}

/// A boolean parsed as `bool::from_str` does: exactly `true` or `false`.
pub open spec fn env_bool(vars: Seq<(String, String)>, name: Seq<char>, default: bool) -> Option<bool> {
    match env_value(vars, name) {
        None => Some(default),
        Some(v) => if v == "true"@ {
            Some(true)
        } else if v == "false"@ {
            Some(false)
        } else {
            None
        },
    }
}

/// A switch: set means on exactly when it reads `true` in any ASCII case,
/// ignoring surrounding whitespace.
pub open spec fn env_flag(vars: Seq<(String, String)>, name: Seq<char>, default: bool) -> bool {
    match env_value(vars, name) {
        None => default,
        Some(v) => lower(trim(v)) == "true"@,
    }
}

/// A text variable that counts only when it is not blank (kept as written).
pub open spec fn env_text(vars: Seq<(String, String)>, name: Seq<char>, default: Seq<char>) -> Seq<char> {
    match env_value(vars, name) {
        Some(v) => if trim(v).len() > 0 {
            v
        } else {
            default
        },
        None => default,
    }
}

/// A comma-separated list variable: its trimmed, non-empty parts.
pub open spec fn env_list(vars: Seq<(String, String)>, name: Seq<char>) -> Seq<Seq<char>> {
    match env_value(vars, name) {
        Some(v) => nonempty_trimmed(split(v, ","@)),
        None => Seq::empty(),
    }
}

/// The addresses of the environment, parsed by the caller, each `None` when
/// its variable is unset: `BIND` (`Some(None)` when it is not an IP address),
/// and the trimmed comma-separated entries of `QDRUST_HEADER_TRUSTED_PROXIES`
/// (`Some(None)` when one of them is not an IP address).
#[derive(Clone, Debug)]
pub struct EnvAddresses {
    pub bind: Option<Option<IpAddress>>,
    pub trusted_proxies: Option<Option<Vec<IpAddress>>>,
}

/// The addresses were parsed from these variables: each is given exactly
/// when its variable is set.
pub open spec fn addresses_of(vars: Seq<(String, String)>, addresses: EnvAddresses) -> bool {
    &&& (addresses.bind is Some <==> env_value(vars, "BIND"@) is Some)
    &&& (addresses.trusted_proxies is Some <==> env_value(vars, "QDRUST_HEADER_TRUSTED_PROXIES"@) is Some)
}

/// The address the server binds: `BIND`, or `0.0.0.0` when it is unset;
/// `None` when it is not an IP address.
pub open spec fn bind_of(addresses: EnvAddresses) -> Option<IpAddress> {
    match addresses.bind {
        None => Some(IpAddress::V4(0)),
        Some(b) => b,
    }
}

/// The trusted proxies: those `QDRUST_HEADER_TRUSTED_PROXIES` lists, none
/// when it is unset; `None` when one of them is not an IP address.
pub open spec fn proxies_of(addresses: EnvAddresses) -> Option<Seq<IpAddress>> {
    match addresses.trusted_proxies {
        None => Some(Seq::empty()),
        Some(Some(v)) => Some(v@),
        Some(None) => None,
    }
}

/// What is wrong with an environment, in the terms of the error it yields.
pub enum EnvProblem {
    Bind,
    Variable(Seq<char>),
    AuthMode(Seq<char>),
    TrustedProxies,
}

/// The problem an error reports.
pub open spec fn problem_of(e: ConfigError) -> Option<EnvProblem> {
    match e {
        ConfigError::InvalidBind => Some(EnvProblem::Bind),
        ConfigError::InvalidVariable(n) => Some(EnvProblem::Variable(n@)),
        ConfigError::InvalidAuthMode(k) => Some(EnvProblem::AuthMode(k@)),
        ConfigError::InvalidTrustedProxies => Some(EnvProblem::TrustedProxies),
        _ => None,
    }
}

/// The value of a variable, or `default` when unset.
pub open spec fn env_or(vars: Seq<(String, String)>, name: Seq<char>, default: Seq<char>) -> Seq<char> {
    match env_value(vars, name) {
        Some(v) => v,
        None => default,
    }
}

/// The first problem of the environment, in the order the configuration
/// reads the variables.
pub open spec fn env_problem(vars: Seq<(String, String)>, addresses: EnvAddresses) -> Option<EnvProblem> {
    if bind_of(addresses) is None {
        Some(EnvProblem::Bind)
    } else if env_number(vars, "PORT"@, 8923, 65535) is None {
        Some(EnvProblem::Variable("PORT"@))
    } else if env_number(vars, "DATABASE_MIN_CONNECTIONS"@, 1, 4294967295) is None {
        Some(EnvProblem::Variable("DATABASE_MIN_CONNECTIONS"@))
    } else if env_number(vars, "DATABASE_MAX_CONNECTIONS"@, 8, 4294967295) is None {
        Some(EnvProblem::Variable("DATABASE_MAX_CONNECTIONS"@))
    } else if env_number(vars, "SCHEDULER_INTERVAL_SECONDS"@, 15, u64::MAX as nat) is None {
        Some(EnvProblem::Variable("SCHEDULER_INTERVAL_SECONDS"@))
    } else if env_number(vars, "REQUEST_TIMEOUT_SECONDS"@, 30, u64::MAX as nat) is None {
        Some(EnvProblem::Variable("REQUEST_TIMEOUT_SECONDS"@))
    } else if env_number(vars, "SESSION_TTL_SECONDS"@, 604800, u64::MAX as nat) is None {
        Some(EnvProblem::Variable("SESSION_TTL_SECONDS"@))
    } else if env_bool(vars, "COOKIE_SECURE"@, false) is None {
        Some(EnvProblem::Variable("COOKIE_SECURE"@))
    } else if env_number(vars, "DATABASE_ACQUIRE_TIMEOUT_SECONDS"@, 30, u64::MAX as nat) is None {
        Some(EnvProblem::Variable("DATABASE_ACQUIRE_TIMEOUT_SECONDS"@))
    } else if env_number(vars, "DATABASE_IDLE_TIMEOUT_SECONDS"@, 600, u64::MAX as nat) is None {
        Some(EnvProblem::Variable("DATABASE_IDLE_TIMEOUT_SECONDS"@))
    } else if env_number(vars, "LOGIN_RATE_LIMIT_ATTEMPTS"@, 5, 4294967295) is None {
        Some(EnvProblem::Variable("LOGIN_RATE_LIMIT_ATTEMPTS"@))
    } else if env_number(vars, "LOGIN_RATE_LIMIT_WINDOW_SECONDS"@, 60, u64::MAX as nat) is None {
        Some(EnvProblem::Variable("LOGIN_RATE_LIMIT_WINDOW_SECONDS"@))
    } else if env_number(vars, "LOG_RETENTION_DAYS"@, 0, u64::MAX as nat) is None {
        Some(EnvProblem::Variable("LOG_RETENTION_DAYS"@))
    } else if env_bool(vars, "REQUIRE_EMAIL_VERIFICATION"@, false) is None {
        Some(EnvProblem::Variable("REQUIRE_EMAIL_VERIFICATION"@))
    } else if env_number(vars, "QDRUST_SUBSCRIPTION_SYNC_INTERVAL_SECONDS"@, 3600, u64::MAX as nat)
        is None {
        Some(EnvProblem::Variable("QDRUST_SUBSCRIPTION_SYNC_INTERVAL_SECONDS"@))
    } else if auth_mode_of(env_or(vars, "QDRUST_AUTH_MODE"@, Seq::empty())) is None {
        Some(EnvProblem::AuthMode(auth_mode_key(env_or(vars, "QDRUST_AUTH_MODE"@, Seq::empty()))))
    } else if proxies_of(addresses) is None {
        Some(EnvProblem::TrustedProxies)
    } else {
        None
    }
}

/// The configuration an environment with no problem yields, field by field.
pub open spec fn env_config(c: Config, vars: Seq<(String, String)>, addresses: EnvAddresses) -> bool {
    &&& Some(c.bind) == bind_of(addresses)
    &&& Some(c.port as nat) == env_number(vars, "PORT"@, 8923, 65535)
    &&& c.database_url@ == env_or(vars, "DATABASE_URL"@, "sqlite://data/qd.db"@)
    &&& Some(c.database_min_connections as nat) == env_number(vars, "DATABASE_MIN_CONNECTIONS"@, 1, 4294967295)
    &&& Some(c.database_max_connections as nat) == env_number(vars, "DATABASE_MAX_CONNECTIONS"@, 8, 4294967295)
    &&& Some(c.scheduler_interval_secs as nat) == env_number(vars, "SCHEDULER_INTERVAL_SECONDS"@, 15, u64::MAX as nat)
    &&& Some(c.request_timeout_secs as nat) == env_number(vars, "REQUEST_TIMEOUT_SECONDS"@, 30, u64::MAX as nat)
    &&& Some(c.session_ttl_secs as nat) == env_number(vars, "SESSION_TTL_SECONDS"@, 604800, u64::MAX as nat)
    &&& Some(c.cookie_secure) == env_bool(vars, "COOKIE_SECURE"@, false)
    &&& Some(c.database_acquire_timeout_secs as nat) == env_number(vars, "DATABASE_ACQUIRE_TIMEOUT_SECONDS"@, 30, u64::MAX as nat)
    &&& Some(c.database_idle_timeout_secs as nat) == env_number(vars, "DATABASE_IDLE_TIMEOUT_SECONDS"@, 600, u64::MAX as nat)
    &&& Some(c.login_rate_limit_attempts as nat) == env_number(vars, "LOGIN_RATE_LIMIT_ATTEMPTS"@, 5, 4294967295)
    &&& Some(c.login_rate_limit_window_secs as nat) == env_number(vars, "LOGIN_RATE_LIMIT_WINDOW_SECONDS"@, 60, u64::MAX as nat)
    &&& Some(c.log_retention_days as nat) == env_number(vars, "LOG_RETENTION_DAYS"@, 0, u64::MAX as nat)
    &&& match c.ga_key {
        Some(k) => env_value(vars, "GA_KEY"@) == Some(k@) && k@.len() > 0,
        None => env_value(vars, "GA_KEY"@) is None || env_value(vars, "GA_KEY"@) == Some(Seq::<char>::empty()),
    }
    &&& Some(c.require_email_verification) == env_bool(vars, "REQUIRE_EMAIL_VERIFICATION"@, false)
    &&& Some(c.subscription_sync_interval_secs as nat) == env_number(vars, "QDRUST_SUBSCRIPTION_SYNC_INTERVAL_SECONDS"@, 3600, u64::MAX as nat)
    &&& c.default_timezone@ == env_text(vars, "QDRUST_DEFAULT_TIMEZONE"@, Seq::empty())
    &&& c.base_path@ == normalized_base_path(env_or(vars, "QDRUST_BASE_PATH"@, Seq::empty()))
    &&& Some(c.auth_mode) == auth_mode_of(env_or(vars, "QDRUST_AUTH_MODE"@, Seq::empty()))
    &&& c.local_login_enabled == env_flag(vars, "QDRUST_LOCAL_LOGIN_ENABLED"@, false)
    &&& c.oidc_enabled == env_flag(vars, "QDRUST_OIDC_ENABLED"@, false)
    &&& c.oidc_provider_name@ == env_text(vars, "QDRUST_OIDC_PROVIDER_NAME"@, Seq::empty())
    &&& c.oidc.issuer@ == env_text(vars, "QDRUST_OIDC_ISSUER"@, Seq::empty())
    &&& c.oidc.client_id@ == env_text(vars, "QDRUST_OIDC_CLIENT_ID"@, Seq::empty())
    &&& c.oidc.client_secret@ == env_text(vars, "QDRUST_OIDC_CLIENT_SECRET"@, Seq::empty())
    &&& c.oidc.redirect_uri@ == env_text(vars, "QDRUST_OIDC_REDIRECT_URI"@, Seq::empty())
    &&& c.oidc.scopes@ == env_text(vars, "QDRUST_OIDC_SCOPES"@, "openid profile email"@)
    &&& c.oidc.auto_create_users == env_flag(vars, "QDRUST_OIDC_AUTO_CREATE_USERS"@, true)
    &&& c.oidc.default_role@ == env_text(vars, "QDRUST_OIDC_DEFAULT_ROLE"@, "user"@)
    &&& string_views(c.oidc.admin_groups@) == env_list(vars, "QDRUST_OIDC_ADMIN_GROUPS"@)
    &&& c.header_auth_enabled == env_flag(vars, "QDRUST_HEADER_AUTH_ENABLED"@, false)
    &&& c.header.user_header@ == env_text(vars, "QDRUST_HEADER_USER_HEADER"@, "Remote-User"@)
    &&& c.header.email_header@ == env_text(vars, "QDRUST_HEADER_EMAIL_HEADER"@, "Remote-Email"@)
    &&& c.header.groups_header@ == env_text(vars, "QDRUST_HEADER_GROUPS_HEADER"@, "Remote-Groups"@)
    &&& c.header.groups_separator@ == env_text(vars, "QDRUST_HEADER_GROUPS_SEPARATOR"@, ","@)
    &&& Some(c.header.trusted_proxies@) == proxies_of(addresses)
    &&& c.header.trusted_proxy_required == env_flag(vars, "QDRUST_HEADER_TRUSTED_PROXY_REQUIRED"@, true)
    &&& c.header.auto_create_users == env_flag(vars, "QDRUST_HEADER_AUTO_CREATE_USERS"@, false)
    &&& c.header.default_role@ == env_text(vars, "QDRUST_HEADER_DEFAULT_ROLE"@, "user"@)
    &&& string_views(c.header.admin_groups@) == env_list(vars, "QDRUST_HEADER_ADMIN_GROUPS"@)
    &&& match c.config_file {
        Some(f) => env_value(vars, "QDRUST_CONFIG_FILE"@) == Some(f@) && f@.len() > 0,
        None => env_value(vars, "QDRUST_CONFIG_FILE"@) is None || env_value(vars, "QDRUST_CONFIG_FILE"@) == Some(Seq::<char>::empty()),
    }
}

/// `env::var(name)`, over the variables read.
pub fn env_lookup<'a>(vars: &'a Vec<(String, String)>, name: &str) -> (r: Option<&'a String>)
    ensures
        match r {
            Some(v) => env_value(vars@, name@) == Some(v@),
            None => env_value(vars@, name@) is None,
        },
{
    let mut i: usize = 0;
    assert(vars@.skip(0) =~= vars@);
    while i < vars.len()
        invariant
            i <= vars.len(),
            env_value(vars@, name@) == env_value(vars@.skip(i as int), name@),
        decreases vars.len() - i,
    {
        assert(vars@.skip(i as int)[0] == vars@[i as int]);
        if str_eq(vars[i].0.as_str(), name) {
            return Some(&vars[i].1);
        }
        assert(vars@.skip(i as int).drop_first() =~= vars@.skip(i + 1));
        i = i + 1;
    }
    None
}

fn read_number(vars: &Vec<(String, String)>, name: &str, default: u64, max: u64) -> (r: Option<u64>)
    requires
        default <= max,
    ensures
        match r {
            Some(n) => env_number(vars@, name@, default as nat, max as nat) == Some(n as nat),
            None => env_number(vars@, name@, default as nat, max as nat) is None,
        },
{
    match env_lookup(vars, name) {
        None => Some(default),
        Some(v) => {
            let c = chars_of(v.as_str());
            match chars_parse_u64(c.as_slice()) {
                Some(n) => if n <= max {
                    Some(n)
                } else {
                    None
                },
                None => None,
            }
        },
    }
}

fn read_bool(vars: &Vec<(String, String)>, name: &str, default: bool) -> (r: Option<bool>)
    ensures
        r == env_bool(vars@, name@, default),
{
    match env_lookup(vars, name) {
        None => Some(default),
        Some(v) => if str_eq(v.as_str(), "true") {
            Some(true)
        } else if str_eq(v.as_str(), "false") {
            Some(false)
        } else {
            None
        },
    }
}

fn read_flag(vars: &Vec<(String, String)>, name: &str, default: bool) -> (r: bool)
    ensures
        r == env_flag(vars@, name@, default),
{
    match env_lookup(vars, name) {
        None => default,
        Some(v) => {
            let c = chars_of(v.as_str());
            let t = trim_chars(c.as_slice());
            let l = chars_lower(t.as_slice());
            let want = chars_of("true");
            chars_eq(l.as_slice(), want.as_slice())
        },
    }
}

fn read_text(vars: &Vec<(String, String)>, name: &str, default: &str) -> (r: String)
    ensures
        r@ == env_text(vars@, name@, default@),
{
    match env_lookup(vars, name) {
        Some(v) => {
            let c = chars_of(v.as_str());
            let t = trim_chars(c.as_slice());
            if t.len() > 0 {
                v.clone()
            } else {
                String::from_str(default)
            }
        },
        None => String::from_str(default),
    }
}

fn read_or(vars: &Vec<(String, String)>, name: &str, default: &str) -> (r: String)
    ensures
        r@ == env_or(vars@, name@, default@),
{
    match env_lookup(vars, name) {
        Some(v) => v.clone(),
        None => String::from_str(default),
    }
}

fn read_nonempty(vars: &Vec<(String, String)>, name: &str) -> (r: Option<String>)
    ensures
        match r {
            Some(k) => env_value(vars@, name@) == Some(k@) && k@.len() > 0,
            None => env_value(vars@, name@) is None || env_value(vars@, name@) == Some(
                Seq::<char>::empty(),
            ),
        },
{
    match env_lookup(vars, name) {
        Some(v) => if v.as_str().is_empty() {
            proof {
                assert(v@.len() == 0);
                assert(v@ =~= Seq::<char>::empty());
            }
            None
        } else {
            Some(v.clone())
        },
        None => None,
    }
}

fn read_list(vars: &Vec<(String, String)>, name: &str) -> (r: Vec<String>)
    ensures
        string_views(r@) == env_list(vars@, name@),
{
    match env_lookup(vars, name) {
        Some(v) => split_trim_nonempty(v.as_str(), ","),
        None => Vec::new(),
    }
}

fn invalid(name: &str) -> (r: ConfigError)
    ensures
        problem_of(r) == Some(EnvProblem::Variable(name@)),
{
    ConfigError::InvalidVariable(String::from_str(name))
}

impl Config {
    /// The environment's part of the configuration: its variables (`vars`,
    /// as read) and its addresses (parsed by the caller). Each variable falls
    /// back to its default when unset; a value that does not parse is an
    /// error naming the variable. `from_env` goes on with the file and the
    /// checks.
    #[verifier::rlimit(60)]
    pub fn from_environment(vars: &Vec<(String, String)>, addresses: EnvAddresses) -> (r: Result<Config, ConfigError>)
        requires
            addresses_of(vars@, addresses),
        ensures
            match r {
                Ok(c) => env_problem(vars@, addresses) is None && env_config(c, vars@, addresses),
                Err(e) => env_problem(vars@, addresses) is Some && problem_of(e) == env_problem(vars@, addresses),
            },
    {
        let bind = match addresses.bind {
            None => IpAddress::V4(0),
            Some(Some(b)) => b,
            Some(None) => {
                return Err(ConfigError::InvalidBind);
            },
        };
        let port = match read_number(vars, "PORT", 8923, 65535) {
            Some(n) => n as u16,
            None => {
                return Err(invalid("PORT"));
            },
        };
        let min_conn = match read_number(vars, "DATABASE_MIN_CONNECTIONS", 1, 4294967295) {
            Some(n) => n as u32,
            None => {
                return Err(invalid("DATABASE_MIN_CONNECTIONS"));
            },
        };
        let max_conn = match read_number(vars, "DATABASE_MAX_CONNECTIONS", 8, 4294967295) {
            Some(n) => n as u32,
            None => {
                return Err(invalid("DATABASE_MAX_CONNECTIONS"));
            },
        };
        let interval = match read_number(vars, "SCHEDULER_INTERVAL_SECONDS", 15, u64::MAX) {
            Some(n) => n,
            None => {
                return Err(invalid("SCHEDULER_INTERVAL_SECONDS"));
            },
        };
        let timeout = match read_number(vars, "REQUEST_TIMEOUT_SECONDS", 30, u64::MAX) {
            Some(n) => n,
            None => {
                return Err(invalid("REQUEST_TIMEOUT_SECONDS"));
            },
        };
        let ttl = match read_number(vars, "SESSION_TTL_SECONDS", 604800, u64::MAX) {
            Some(n) => n,
            None => {
                return Err(invalid("SESSION_TTL_SECONDS"));
            },
        };
        let cookie_secure = match read_bool(vars, "COOKIE_SECURE", false) {
            Some(b) => b,
            None => {
                return Err(invalid("COOKIE_SECURE"));
            },
        };
        let acquire = match read_number(vars, "DATABASE_ACQUIRE_TIMEOUT_SECONDS", 30, u64::MAX) {
            Some(n) => n,
            None => {
                return Err(invalid("DATABASE_ACQUIRE_TIMEOUT_SECONDS"));
            },
        };
        let idle = match read_number(vars, "DATABASE_IDLE_TIMEOUT_SECONDS", 600, u64::MAX) {
            Some(n) => n,
            None => {
                return Err(invalid("DATABASE_IDLE_TIMEOUT_SECONDS"));
            },
        };
        let attempts = match read_number(vars, "LOGIN_RATE_LIMIT_ATTEMPTS", 5, 4294967295) {
            Some(n) => n as u32,
            None => {
                return Err(invalid("LOGIN_RATE_LIMIT_ATTEMPTS"));
            },
        };
        let window = match read_number(vars, "LOGIN_RATE_LIMIT_WINDOW_SECONDS", 60, u64::MAX) {
            Some(n) => n,
            None => {
                return Err(invalid("LOGIN_RATE_LIMIT_WINDOW_SECONDS"));
            },
        };
        let retention = match read_number(vars, "LOG_RETENTION_DAYS", 0, u64::MAX) {
            Some(n) => n,
            None => {
                return Err(invalid("LOG_RETENTION_DAYS"));
            },
        };
        let verification = match read_bool(vars, "REQUIRE_EMAIL_VERIFICATION", false) {
            Some(b) => b,
            None => {
                return Err(invalid("REQUIRE_EMAIL_VERIFICATION"));
            },
        };
        let sync = match read_number(vars, "QDRUST_SUBSCRIPTION_SYNC_INTERVAL_SECONDS", 3600, u64::MAX) {
            Some(n) => n,
            None => {
                return Err(invalid("QDRUST_SUBSCRIPTION_SYNC_INTERVAL_SECONDS"));
            },
        };
        let mode_text = read_or(vars, "QDRUST_AUTH_MODE", "");
        proof {
            assert(""@ =~= Seq::<char>::empty()) by {
                reveal_strlit("");
            }
        }
        let auth_mode = match AuthMode::parse(mode_text.as_str()) {
            Ok(m) => m,
            Err(e) => {
                return Err(e);
            },
        };
        let trusted = match addresses.trusted_proxies {
            None => Vec::new(),
            Some(Some(t)) => t,
            Some(None) => {
                return Err(ConfigError::InvalidTrustedProxies);
            },
        };
        let base_raw = read_or(vars, "QDRUST_BASE_PATH", "");
        let oidc = OidcConfig {
            issuer: read_text(vars, "QDRUST_OIDC_ISSUER", ""),
            client_id: read_text(vars, "QDRUST_OIDC_CLIENT_ID", ""),
            client_secret: read_text(vars, "QDRUST_OIDC_CLIENT_SECRET", ""),
            redirect_uri: read_text(vars, "QDRUST_OIDC_REDIRECT_URI", ""),
            scopes: read_text(vars, "QDRUST_OIDC_SCOPES", "openid profile email"),
            auto_create_users: read_flag(vars, "QDRUST_OIDC_AUTO_CREATE_USERS", true),
            default_role: read_text(vars, "QDRUST_OIDC_DEFAULT_ROLE", "user"),
            admin_groups: read_list(vars, "QDRUST_OIDC_ADMIN_GROUPS"),
        };
        let header = HeaderAuthConfig {
            user_header: read_text(vars, "QDRUST_HEADER_USER_HEADER", "Remote-User"),
            email_header: read_text(vars, "QDRUST_HEADER_EMAIL_HEADER", "Remote-Email"),
            groups_header: read_text(vars, "QDRUST_HEADER_GROUPS_HEADER", "Remote-Groups"),
            groups_separator: read_text(vars, "QDRUST_HEADER_GROUPS_SEPARATOR", ","),
            trusted_proxies: trusted,
            trusted_proxy_required: read_flag(vars, "QDRUST_HEADER_TRUSTED_PROXY_REQUIRED", true),
            auto_create_users: read_flag(vars, "QDRUST_HEADER_AUTO_CREATE_USERS", false),
            default_role: read_text(vars, "QDRUST_HEADER_DEFAULT_ROLE", "user"),
            admin_groups: read_list(vars, "QDRUST_HEADER_ADMIN_GROUPS"),
        };
        Ok(Config {
            bind,
            port,
            database_url: read_or(vars, "DATABASE_URL", "sqlite://data/qd.db"),
            database_min_connections: min_conn,
            database_max_connections: max_conn,
            scheduler_interval_secs: interval,
            request_timeout_secs: timeout,
            session_ttl_secs: ttl,
            cookie_secure,
            database_acquire_timeout_secs: acquire,
            database_idle_timeout_secs: idle,
            login_rate_limit_attempts: attempts,
            login_rate_limit_window_secs: window,
            log_retention_days: retention,
            ga_key: read_nonempty(vars, "GA_KEY"),
            require_email_verification: verification,
            subscription_sync_interval_secs: sync,
            default_timezone: read_text(vars, "QDRUST_DEFAULT_TIMEZONE", ""),
            base_path: normalize_base_path(base_raw.as_str()),
            auth_mode,
            local_login_enabled: read_flag(vars, "QDRUST_LOCAL_LOGIN_ENABLED", false),
            oidc_enabled: read_flag(vars, "QDRUST_OIDC_ENABLED", false),
            oidc_provider_name: read_text(vars, "QDRUST_OIDC_PROVIDER_NAME", ""),
            header_auth_enabled: read_flag(vars, "QDRUST_HEADER_AUTH_ENABLED", false),
            oidc,
            header,
            config_file: read_nonempty(vars, "QDRUST_CONFIG_FILE"),
        })
    }
}

/// Two passes of the startup checks over `m`, as the server makes them: the
/// first rule broken in either pass, or what the second pass gives.
pub open spec fn validated_twice(m: Config, r: Result<Config, ConfigError>) -> bool {
    match r {
        Ok(c) => exists|v: Config|
            #![trigger validated(m, Ok::<Config, ConfigError>(v))]
            validated(m, Ok::<Config, ConfigError>(v)) && validated(v, Ok::<Config, ConfigError>(c)),
        Err(e) => validated(m, Err::<Config, ConfigError>(e)) || exists|v: Config|
            #![trigger validated(m, Ok::<Config, ConfigError>(v))]
            validated(m, Ok::<Config, ConfigError>(v)) && validated(v, Err::<Config, ConfigError>(e)),
    }
}

/// After the environment's part `e`: the configuration file when there is
/// one, then two passes of the checks.
pub open spec fn settled_from(e: Config, file: Option<(JsonValue, FileAddresses)>, r: Result<Config, ConfigError>) -> bool {
    match file {
        None => validated_twice(e, r),
        Some((f, a)) => match r {
            Ok(c) => exists|m: Config|
                #![trigger merged(e, f, a, Ok::<Config, ConfigError>(m))]
                merged(e, f, a, Ok::<Config, ConfigError>(m)) && validated_twice(m, Ok::<Config, ConfigError>(c)),
            Err(err) => merged(e, f, a, Err::<Config, ConfigError>(err)) || exists|m: Config|
                #![trigger merged(e, f, a, Ok::<Config, ConfigError>(m))]
                merged(e, f, a, Ok::<Config, ConfigError>(m)) && validated_twice(m, Err::<Config, ConfigError>(err)),
        },
    }
}

/// The configuration the server starts with: the environment's part (or
/// its first problem), then the file, then the checks twice.
pub open spec fn settled_config(
    vars: Seq<(String, String)>,
    addresses: EnvAddresses,
    file: Option<(JsonValue, FileAddresses)>,
    r: Result<Config, ConfigError>,
) -> bool {
    match env_problem(vars, addresses) {
        Some(p) => r is Err && problem_of(r->Err_0) == Some(p),
        None => exists|e: Config|
            #![trigger env_config(e, vars, addresses)]
            env_config(e, vars, addresses) && settled_from(e, file, r),
    }
}

/// The file a caller hands over, as mathematics sees it.
pub open spec fn file_view(file: Option<(&JsonValue, FileAddresses)>) -> Option<(JsonValue, FileAddresses)> {
    match file {
        Some((f, a)) => Some((*f, a)),
        None => None,
    }
}

impl Config {
    /// The configuration the server starts with, from the environment's
    /// variables and addresses and, exactly when `QDRUST_CONFIG_FILE` names
    /// one, the configuration file (parsed by the caller, with its addresses):
    /// environment first, then the file for what it left unset, then the
    /// startup checks, made twice as the server makes them.
    pub fn from_env(
        vars: &Vec<(String, String)>,
        addresses: EnvAddresses,
        file: Option<(&JsonValue, FileAddresses)>,
    ) -> (r: Result<Config, ConfigError>)
        requires
            addresses_of(vars@, addresses),
            file is Some <==> (env_value(vars@, "QDRUST_CONFIG_FILE"@) is Some && env_value(
                vars@,
                "QDRUST_CONFIG_FILE"@,
            ).unwrap().len() > 0),
            match file {
                Some((f, a)) => (a.bind is Some <==> json_str(*f, "bind"@) is Some),
                None => true,
            },
        ensures
            settled_config(vars@, addresses, file_view(file), r),
    {
        let e = match Config::from_environment(vars, addresses) {
            Ok(e) => e,
            Err(err) => {
                return Err(err);
            },
        };
        let ghost ge = e;
        assert(env_config(ge, vars@, addresses));
        let m = match file {
            Some((f, a)) => match e.merge_file(f, a) {
                Ok(m) => {
                    assert(merged(ge, *f, a, Ok::<Config, ConfigError>(m)));
                    m
                },
                Err(err) => {
                    assert(merged(ge, *f, a, Err::<Config, ConfigError>(err)));
                    return Err(err);
                },
            },
            None => e,
        };
        let ghost gm = m;
        let v = match m.validate() {
            Ok(v) => v,
            Err(err) => {
                assert(validated(gm, Err::<Config, ConfigError>(err)));
                assert(validated_twice(gm, Err::<Config, ConfigError>(err)));
                return Err(err);
            },
        };
        assert(validated(gm, Ok::<Config, ConfigError>(v)));
        let ghost gv = v;
        let r = v.validate();
        let ghost gr = r;
        proof {
            match gr {
                Ok(c) => {
                    assert(validated(gv, Ok::<Config, ConfigError>(c)));
                    assert(validated_twice(gm, Ok::<Config, ConfigError>(c)));
                },
                Err(err) => {
                    assert(validated(gv, Err::<Config, ConfigError>(err)));
                    assert(validated_twice(gm, Err::<Config, ConfigError>(err)));
                },
            }
        }
        r
    }
}

} // verus!
