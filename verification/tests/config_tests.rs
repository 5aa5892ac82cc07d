use qdrust::config::{
    csv_values, normalize_base_path, AuthMode, Config, ConfigError, FileAddresses,
    HeaderAuthConfig, IpAddress, OidcConfig,
};
use qdrust::environment::EnvAddresses;
use qdrust::json::JsonValue;

fn base_config() -> Config {
    Config {
        bind: IpAddress::V4(0),
        port: 8923,
        database_url: "sqlite://:memory:".to_string(),
        database_min_connections: 1,
        database_max_connections: 4,
        scheduler_interval_secs: 15,
        request_timeout_secs: 30,
        session_ttl_secs: 60,
        cookie_secure: false,
        database_acquire_timeout_secs: 30,
        database_idle_timeout_secs: 600,
        login_rate_limit_attempts: 5,
        login_rate_limit_window_secs: 60,
        log_retention_days: 0,
        ga_key: None,
        require_email_verification: false,
        subscription_sync_interval_secs: 3600,
        default_timezone: String::new(),
        base_path: String::new(),
        auth_mode: AuthMode::Local,
        local_login_enabled: false,
        oidc_enabled: false,
        oidc_provider_name: String::new(),
        header_auth_enabled: false,
        oidc: OidcConfig::default(),
        header: HeaderAuthConfig::default(),
        config_file: None,
    }
}

const LOOPBACK: IpAddress = IpAddress::V4(0x7f00_0001);

#[test]
fn base_path_is_normalized() {
    assert_eq!(normalize_base_path(""), "");
    assert_eq!(normalize_base_path("/"), "");
    assert_eq!(normalize_base_path("   "), "");
    assert_eq!(normalize_base_path("/qd"), "/qd");
    assert_eq!(normalize_base_path("/qd/"), "/qd");
    assert_eq!(normalize_base_path("qd"), "/qd");
    assert_eq!(normalize_base_path("qd/"), "/qd");
    assert_eq!(normalize_base_path("/qd/app/"), "/qd/app");
}

#[test]
fn env_parse_defaults_timezone_and_base_path() {
    let cfg = base_config().validate().unwrap();
    assert_eq!(cfg.default_timezone, "Asia/Shanghai");
    assert_eq!(cfg.base_path, "");
}

#[test]
fn invalid_default_timezone_is_rejected() {
    let cfg = Config { default_timezone: "Not/A_Zone".to_string(), ..base_config() }.validate();
    assert!(cfg.is_err());
}

#[test]
fn auth_mode_empty_unset_env_parses_to_local() {
    assert_eq!(AuthMode::parse("").unwrap(), AuthMode::Local);
    assert_eq!(AuthMode::parse("local").unwrap(), AuthMode::Local);
    assert_eq!(AuthMode::parse("LOCAL").unwrap(), AuthMode::Local);
    assert_eq!(AuthMode::parse("hybrid").unwrap(), AuthMode::Hybrid);
    assert_eq!(AuthMode::parse("oidc").unwrap(), AuthMode::Oidc);
    assert!(AuthMode::parse("bogus").is_err());
}

#[test]
fn auth_mode_defaults_to_local_and_public_config_is_safe() {
    let cfg = base_config().validate().unwrap();
    let pub_cfg = cfg.public_auth_config();
    assert_eq!(pub_cfg.auth_mode, "local");
    assert!(pub_cfg.local_login_enabled);
    assert!(!pub_cfg.oidc_enabled);
    assert!(!pub_cfg.header_auth_enabled);
    assert_eq!(pub_cfg.oidc_provider_name, "");
}

fn oidc_provider(issuer: &str) -> OidcConfig {
    OidcConfig {
        issuer: issuer.to_string(),
        client_id: "qdrust".to_string(),
        client_secret: "secret".to_string(),
        ..OidcConfig::default()
    }
}

#[test]
fn oidc_mode_keeps_local_entry_only_when_forced_and_public_config_reflects_provider() {
    let cfg = Config {
        auth_mode: AuthMode::Oidc,
        oidc_enabled: true,
        oidc_provider_name: "Authentik".to_string(),
        oidc: oidc_provider("https://auth.example.com/application/o/qdrust/"),
        ..base_config()
    }
    .validate()
    .unwrap();
    let pub_cfg = cfg.public_auth_config();
    assert_eq!(pub_cfg.auth_mode, "oidc");
    assert!(!pub_cfg.local_login_enabled);
    assert!(pub_cfg.oidc_enabled);
    assert_eq!(pub_cfg.oidc_provider_name, "Authentik");
}

#[test]
fn hybrid_without_provider_is_rejected() {
    let cfg = Config { auth_mode: AuthMode::Hybrid, ..base_config() }.validate();
    assert!(cfg.is_err());
}

#[test]
fn hybrid_force_local_login_and_emergency_oidc_mode() {
    let cfg = Config {
        auth_mode: AuthMode::Hybrid,
        local_login_enabled: true,
        oidc_enabled: true,
        oidc_provider_name: "Keycloak".to_string(),
        oidc: oidc_provider("https://auth.example.com/realms/qdrust"),
        ..base_config()
    }
    .validate()
    .unwrap();
    let pub_cfg = cfg.public_auth_config();
    assert_eq!(pub_cfg.auth_mode, "hybrid");
    assert!(pub_cfg.local_login_enabled);
    assert!(pub_cfg.oidc_enabled);
    assert_eq!(pub_cfg.oidc_provider_name, "Keycloak");
}

#[test]
fn header_auth_requires_trusted_proxy_when_required() {
    let base = |header_auth_enabled: bool, trusted_proxies: Vec<IpAddress>, trusted_proxy_required: bool| Config {
        header_auth_enabled,
        header: HeaderAuthConfig {
            trusted_proxies,
            trusted_proxy_required,
            ..HeaderAuthConfig::default()
        },
        ..base_config()
    };
    assert!(base(true, vec![], true).validate().is_err());
    assert!(base(true, vec![LOOPBACK], true).validate().is_ok());
    assert!(base(true, vec![], false).validate().is_ok());
    assert!(base(false, vec![], true).validate().is_ok());
}

#[test]
fn each_rule_names_its_violation() {
    let err = |c: Config| c.validate().unwrap_err();
    assert_eq!(
        err(Config { database_min_connections: 5, database_max_connections: 4, ..base_config() }),
        ConfigError::MinConnectionsExceedMax
    );
    assert_eq!(
        err(Config { database_min_connections: 0, database_max_connections: 0, ..base_config() }),
        ConfigError::EmptyPool
    );
    assert_eq!(err(Config { session_ttl_secs: 0, ..base_config() }), ConfigError::ZeroSessionTtl);
    assert_eq!(
        err(Config { database_acquire_timeout_secs: 0, ..base_config() }),
        ConfigError::ZeroAcquireTimeout
    );
    assert_eq!(
        err(Config { database_idle_timeout_secs: 0, ..base_config() }),
        ConfigError::ZeroIdleTimeout
    );
    assert_eq!(err(Config { login_rate_limit_attempts: 0, ..base_config() }), ConfigError::NoLoginAttempts);
    assert_eq!(
        err(Config { login_rate_limit_window_secs: 0, ..base_config() }),
        ConfigError::ZeroLoginWindow
    );
    assert_eq!(
        err(Config { auth_mode: AuthMode::Oidc, ..base_config() }),
        ConfigError::ProviderRequired(AuthMode::Oidc)
    );
    assert_eq!(
        err(Config { oidc_enabled: true, ..base_config() }),
        ConfigError::OidcIssuerMissing
    );
    assert_eq!(
        err(Config {
            oidc_enabled: true,
            oidc: OidcConfig { issuer: "https://i".to_string(), ..OidcConfig::default() },
            ..base_config()
        }),
        ConfigError::OidcClientIdMissing
    );
    assert_eq!(
        err(Config {
            oidc_enabled: true,
            oidc: OidcConfig {
                issuer: "https://i".to_string(),
                client_id: "c".to_string(),
                ..OidcConfig::default()
            },
            ..base_config()
        }),
        ConfigError::OidcClientSecretMissing
    );
    assert_eq!(
        err(Config {
            oidc: OidcConfig { default_role: "root".to_string(), ..OidcConfig::default() },
            ..base_config()
        }),
        ConfigError::InvalidOidcRole
    );
    assert_eq!(
        err(Config {
            header: HeaderAuthConfig { default_role: "root".to_string(), ..HeaderAuthConfig::default() },
            ..base_config()
        }),
        ConfigError::InvalidHeaderRole
    );
}

#[test]
fn a_bogus_mode_reports_its_normalized_spelling() {
    assert_eq!(
        AuthMode::parse("  BoGuS ").unwrap_err(),
        ConfigError::InvalidAuthMode("bogus".to_string())
    );
}

#[test]
fn auth_mode_names_parse_back() {
    for m in [AuthMode::Local, AuthMode::Hybrid, AuthMode::Oidc] {
        assert_eq!(AuthMode::parse(m.as_str()).unwrap(), m);
    }
}

#[test]
fn a_normalized_base_path_keeps_its_form() {
    for raw in ["", "/", "qd", "/qd/", " qd/app// ", "/a/b"] {
        let once = normalize_base_path(raw);
        assert!(once.is_empty() || (once.starts_with('/') && !once.ends_with('/')));
        assert_eq!(normalize_base_path(&once), once);
    }
    // Two or more slashes and nothing else keep a single slash.
    assert_eq!(normalize_base_path("//"), "/");
}

#[test]
fn csv_values_are_trimmed_and_non_empty() {
    assert_eq!(csv_values(" a, b ,,c "), vec!["a", "b", "c"]);
    assert!(csv_values("  ").is_empty());
}

fn vars(pairs: &[(&str, &str)]) -> Vec<(String, String)> {
    pairs.iter().map(|(k, v)| (k.to_string(), v.to_string())).collect()
}

fn env_addresses() -> EnvAddresses {
    EnvAddresses { bind: None, trusted_proxies: None }
}

#[test]
fn an_empty_environment_gives_the_defaults() {
    let cfg = Config::from_environment(&vars(&[]), env_addresses()).unwrap();
    assert_eq!(cfg.bind, IpAddress::V4(0));
    assert!(cfg.header.trusted_proxies.is_empty());
    assert_eq!(cfg.port, 8923);
    assert_eq!(cfg.database_url, "sqlite://data/qd.db");
    assert_eq!(cfg.database_min_connections, 1);
    assert_eq!(cfg.database_max_connections, 8);
    assert_eq!(cfg.scheduler_interval_secs, 15);
    assert_eq!(cfg.session_ttl_secs, 604_800);
    assert_eq!(cfg.auth_mode, AuthMode::Local);
    assert_eq!(cfg.oidc.scopes, "openid profile email");
    assert!(cfg.oidc.auto_create_users);
    assert_eq!(cfg.header.user_header, "Remote-User");
    assert!(cfg.header.trusted_proxy_required);
    assert_eq!(cfg.base_path, "");
    assert_eq!(cfg.ga_key, None);
    assert_eq!(cfg.config_file, None);
}

#[test]
fn environment_values_are_parsed_and_checked() {
    let cfg = Config::from_environment(
        &vars(&[
            ("PORT", "9000"),
            ("COOKIE_SECURE", "true"),
            ("QDRUST_BASE_PATH", "qd/"),
            ("QDRUST_AUTH_MODE", " Hybrid "),
            ("QDRUST_OIDC_ENABLED", " TRUE "),
            ("QDRUST_OIDC_ADMIN_GROUPS", "admins, ops,,"),
            ("GA_KEY", ""),
            ("QDRUST_OIDC_SCOPES", "   "),
        ]),
        env_addresses(),
    )
    .unwrap();
    assert_eq!(cfg.port, 9000);
    assert!(cfg.cookie_secure);
    assert_eq!(cfg.base_path, "/qd");
    assert_eq!(cfg.auth_mode, AuthMode::Hybrid);
    assert!(cfg.oidc_enabled);
    assert_eq!(cfg.oidc.admin_groups, vec!["admins", "ops"]);
    assert_eq!(cfg.ga_key, None);
    assert_eq!(cfg.oidc.scopes, "openid profile email");

    let bad_port = Config::from_environment(&vars(&[("PORT", "70000")]), env_addresses()).unwrap_err();
    assert_eq!(bad_port, ConfigError::InvalidVariable("PORT".to_string()));
    let bad_flag = Config::from_environment(&vars(&[("COOKIE_SECURE", "yes")]), env_addresses()).unwrap_err();
    assert_eq!(bad_flag, ConfigError::InvalidVariable("COOKIE_SECURE".to_string()));
    let bad_mode = Config::from_environment(&vars(&[("QDRUST_AUTH_MODE", "sso")]), env_addresses()).unwrap_err();
    assert_eq!(bad_mode, ConfigError::InvalidAuthMode("sso".to_string()));
    let bad_bind = Config::from_environment(
        &vars(&[("BIND", "nowhere")]),
        EnvAddresses { bind: Some(None), trusted_proxies: None },
    )
    .unwrap_err();
    assert_eq!(bad_bind, ConfigError::InvalidBind);
    let bad_proxies = Config::from_environment(
        &vars(&[("QDRUST_HEADER_TRUSTED_PROXIES", "10.0.0.1, proxy")]),
        EnvAddresses { bind: None, trusted_proxies: Some(None) },
    )
    .unwrap_err();
    assert_eq!(bad_proxies, ConfigError::InvalidTrustedProxies);
}

fn object(members: Vec<(&str, JsonValue)>) -> JsonValue {
    JsonValue::Object(members.into_iter().map(|(k, v)| (k.to_string(), v)).collect())
}

#[test]
fn the_file_fills_only_what_the_environment_left_unset() {
    let env = Config { database_url: "sqlite://env.db".to_string(), ..base_config() };
    let file = object(vec![
        ("database_url", JsonValue::Str("sqlite://file.db".to_string())),
        ("default_timezone", JsonValue::Str("Europe/Berlin".to_string())),
        ("port", JsonValue::Number("9100".to_string())),
    ]);
    let merged = env
        .merge_file(&file, FileAddresses { bind: None, trusted_proxies: Vec::new() })
        .unwrap();
    assert_eq!(merged.database_url, "sqlite://env.db");
    assert_eq!(merged.default_timezone, "Europe/Berlin");
    assert_eq!(merged.port, 9100);
}

#[test]
fn an_auth_mode_the_environment_set_wins_over_the_file() {
    let env = Config { auth_mode: AuthMode::Hybrid, oidc_enabled: true, ..base_config() };
    let file = object(vec![("auth_mode", JsonValue::Str("local".to_string()))]);
    let merged = env
        .merge_file(&file, FileAddresses { bind: None, trusted_proxies: Vec::new() })
        .unwrap();
    assert_eq!(merged.auth_mode, AuthMode::Hybrid);

    let unset = base_config();
    let file = object(vec![("auth_mode", JsonValue::Str("OIDC".to_string()))]);
    let merged = unset
        .merge_file(&file, FileAddresses { bind: None, trusted_proxies: Vec::new() })
        .unwrap();
    assert_eq!(merged.auth_mode, AuthMode::Oidc);
}

#[test]
fn a_normalized_base_path_normalizes_to_itself() {
    for raw in ["", "/", "qd", " /qd/app/ ", "qd//"] {
        let once = normalize_base_path(raw);
        assert_eq!(normalize_base_path(&once), once);
    }
    let cfg = base_config().validate().unwrap();
    let again = cfg.clone().validate().unwrap();
    assert_eq!(again.default_timezone, cfg.default_timezone);
    assert_eq!(again.base_path, cfg.base_path);
}

#[test]
fn from_env_settles_the_configuration_the_server_starts_with() {
    let cfg = Config::from_env(&vars(&[]), env_addresses(), None).unwrap();
    assert_eq!(cfg.bind, IpAddress::V4(0));
    assert_eq!(cfg.port, 8923);
    assert_eq!(cfg.database_url, "sqlite://data/qd.db");
    assert_eq!(cfg.auth_mode, AuthMode::Local);
    assert!(!cfg.local_login_enabled);
    assert!(!cfg.oidc_enabled);
    assert_eq!(cfg.default_timezone, "Asia/Shanghai");
    assert_eq!(cfg.base_path, "");
    assert_eq!(cfg.oidc.scopes, "openid profile email");
    assert_eq!(cfg.header.user_header, "Remote-User");
    assert!(cfg.header.trusted_proxy_required);

    let refused = Config::from_env(&vars(&[("QDRUST_AUTH_MODE", "hybrid")]), env_addresses(), None)
        .unwrap_err();
    assert_eq!(refused, ConfigError::ProviderRequired(AuthMode::Hybrid));
    let bad_port = Config::from_env(&vars(&[("PORT", "x")]), env_addresses(), None).unwrap_err();
    assert_eq!(bad_port, ConfigError::InvalidVariable("PORT".to_string()));
}

#[test]
fn from_env_reads_the_file_the_environment_names() {
    let env = vars(&[("QDRUST_CONFIG_FILE", "/etc/qdrust.json"), ("QDRUST_BASE_PATH", "")]);
    let file = object(vec![
        ("base_path", JsonValue::Str("qd/".to_string())),
        ("default_timezone", JsonValue::Str(" Europe/Berlin ".to_string())),
    ]);
    let cfg = Config::from_env(
        &env,
        env_addresses(),
        Some((&file, FileAddresses { bind: None, trusted_proxies: Vec::new() })),
    )
    .unwrap();
    assert_eq!(cfg.base_path, "/qd");
    assert_eq!(cfg.default_timezone, "Europe/Berlin");
    assert_eq!(cfg.config_file.as_deref(), Some("/etc/qdrust.json"));

    let bad = object(vec![("bind", JsonValue::Str("nowhere".to_string()))]);
    let refused = Config::from_env(
        &env,
        env_addresses(),
        Some((&bad, FileAddresses { bind: Some(None), trusted_proxies: Vec::new() })),
    )
    .unwrap_err();
    assert_eq!(refused, ConfigError::InvalidBind);
}

#[test]
fn the_environment_names_the_bind_address_and_the_proxies() {
    let cfg = Config::from_environment(
        &vars(&[("BIND", "127.0.0.1"), ("QDRUST_HEADER_TRUSTED_PROXIES", "10.0.0.1")]),
        EnvAddresses {
            bind: Some(Some(IpAddress::V4(0x7f00_0001))),
            trusted_proxies: Some(Some(vec![IpAddress::V4(0x0a00_0001)])),
        },
    )
    .unwrap();
    assert_eq!(cfg.bind, IpAddress::V4(0x7f00_0001));
    assert_eq!(cfg.header.trusted_proxies, vec![IpAddress::V4(0x0a00_0001)]);
}
