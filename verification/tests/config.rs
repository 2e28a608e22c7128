use catlas_api::config::{
    append_trace_path, env_flag, optional_value, parse_bool, parse_headers, parse_scopes,
    parse_timeout, required_value, resolve_otlp_endpoint, resolve_otlp_timeout, test_database_url,
    valid_endpoint,
    AuthConfig, Config, ConfigError, DatabaseConfig, RawEnv, TelemetryConfig,
};

fn s(value: &str) -> String {
    value.to_owned()
}

fn minimal_env() -> RawEnv {
    RawEnv {
        database_url: Some(s("postgres://localhost/catlas")),
        ..RawEnv::default()
    }
}

#[test]
fn blank_values_count_as_unset() {
    assert_eq!(optional_value(Some(&s("  "))), None);
    assert_eq!(optional_value(Some(&s(" x "))), Some(s(" x ")));
    assert_eq!(optional_value(None), None);
    assert_eq!(required_value(None, "DATABASE_URL"), Err(ConfigError::NotSet(s("DATABASE_URL"))));
    assert_eq!(
        ConfigError::NotSet(s("DATABASE_URL")).message(),
        "DATABASE_URL must be set"
    );
}

#[test]
fn booleans_accept_common_spellings() {
    assert_eq!(parse_bool(Some(&s(" YES ")), "FLAG"), Ok(Some(true)));
    assert_eq!(parse_bool(Some(&s("0")), "FLAG"), Ok(Some(false)));
    assert_eq!(parse_bool(None, "FLAG"), Ok(None));
    let err = parse_bool(Some(&s("maybe")), "FLAG").unwrap_err();
    assert_eq!(err, ConfigError::NotBoolean(s("FLAG")));
    assert_eq!(err.message(), "FLAG must be true or false");
}

#[test]
fn flags_are_off_unless_enabled() {
    assert!(env_flag(Some(&s("TRUE"))));
    assert!(env_flag(Some(&s("1"))));
    assert!(!env_flag(Some(&s(" true"))));
    assert!(!env_flag(Some(&s("no"))));
    assert!(!env_flag(None));
}

#[test]
fn scopes_always_request_openid() {
    assert_eq!(parse_scopes("profile  email"), vec![s("openid"), s("profile"), s("email")]);
    assert_eq!(parse_scopes("email openid"), vec![s("email"), s("openid")]);
    assert_eq!(parse_scopes("   "), vec![s("openid")]);
}

#[test]
fn endpoints_must_be_http_uris_with_an_authority() {
    assert_eq!(valid_endpoint(s("http://collector:4318/v1/traces")), Some(s("http://collector:4318/v1/traces")));
    assert_eq!(valid_endpoint(s("https://collector")), Some(s("https://collector")));
    assert_eq!(valid_endpoint(s("ftp://collector")), None);
    assert_eq!(valid_endpoint(s("/v1/traces")), None);
    assert_eq!(valid_endpoint(s("not a uri")), None);
}

#[test]
fn trace_paths_are_appended_once() {
    assert_eq!(append_trace_path("http://collector:4318/"), "http://collector:4318/v1/traces");
    assert_eq!(append_trace_path("http://collector:4318"), "http://collector:4318/v1/traces");
}

#[test]
fn endpoints_resolve_in_order() {
    assert_eq!(
        resolve_otlp_endpoint(Some("http://traces:1"), Some("http://generic:2")),
        "http://traces:1"
    );
    assert_eq!(
        resolve_otlp_endpoint(Some("bad"), Some("http://generic:2/")),
        "http://generic:2/v1/traces"
    );
    assert_eq!(resolve_otlp_endpoint(None, None), "http://127.0.0.1:4318/v1/traces");
    assert_eq!(resolve_otlp_endpoint(None, Some("bad")), "http://127.0.0.1:4318/v1/traces");
}

#[test]
fn timeouts_are_milliseconds() {
    assert_eq!(parse_timeout("2500"), Some(2500));
    assert_eq!(parse_timeout("+7"), Some(7));
    assert_eq!(parse_timeout("-1"), None);
    assert_eq!(parse_timeout("18446744073709551616"), None);
    assert_eq!(resolve_otlp_timeout(Some("x"), Some("300")), 300);
    assert_eq!(resolve_otlp_timeout(Some("5"), Some("300")), 5);
    assert_eq!(resolve_otlp_timeout(None, None), 10000);
}

#[test]
fn headers_are_trimmed_pairs_and_the_last_wins() {
    let headers = parse_headers(" a = 1 ,broken, b=2=3,a=4");
    assert_eq!(headers.len(), 2);
    assert!(headers.contains(&(s("a"), s("4"))));
    assert!(headers.contains(&(s("b"), s("2=3"))));
}

#[test]
fn configuration_requires_a_database_url() {
    let err = Config::from_env(&RawEnv::default(), false).err().unwrap();
    assert_eq!(err, ConfigError::NotSet(s("DATABASE_URL")));
    assert!(DatabaseConfig::from_env(&RawEnv::default()).is_err());
}

#[test]
fn configuration_defaults() {
    let config = Config::from_env(&minimal_env(), true).ok().unwrap();
    assert_eq!(config.database_url(), "postgres://localhost/catlas");
    assert_eq!(config.host(), "127.0.0.1");
    assert_eq!(config.port(), "3000");
    assert!(!config.cookie_secure());
    assert!(config.auth().developer_auth_enabled);
    assert_eq!(config.auth().oidc_scopes, vec![s("openid"), s("profile")]);
    assert_eq!(config.auth().oidc_post_login_redirect_uri, "http://127.0.0.1:5173/");
    let telemetry = config.telemetry();
    assert!(!telemetry.enabled());
    assert_eq!(telemetry.service_name(), "catlas-api-rs");
    assert_eq!(telemetry.otlp_endpoint(), "http://127.0.0.1:4318/v1/traces");
    assert_eq!(telemetry.otlp_timeout(), 10000);
    assert_eq!(telemetry.log_filter(), None);
    assert_eq!(telemetry.otlp_compression(), None);
    assert!(telemetry.otlp_headers().is_empty());
}

#[test]
fn partial_oidc_configuration_is_refused() {
    let mut env = minimal_env();
    env.oidc_issuer_url = Some(s("https://issuer.example"));
    let err = AuthConfig::from_raw(&env, false).err().unwrap();
    assert_eq!(err, ConfigError::NotSet(s("OIDC_CLIENT_ID")));
    env.dev_auth_enabled = Some(s("sometimes"));
    let err = Config::from_env(&env, false).err().unwrap();
    assert_eq!(err, ConfigError::NotBoolean(s("DEV_AUTH_ENABLED")));
}

#[test]
fn telemetry_prefers_trace_specific_settings() {
    let mut env = minimal_env();
    env.otel_enabled = Some(s("yes"));
    env.otel_exporter_otlp_compression = Some(s("gzip"));
    env.otel_exporter_otlp_traces_headers = Some(s("k=v"));
    env.otel_exporter_otlp_headers = Some(s("x=y"));
    env.otel_exporter_otlp_traces_timeout = Some(s("42"));
    let telemetry = TelemetryConfig::from_raw(&env);
    assert!(telemetry.enabled());
    assert_eq!(telemetry.otlp_compression(), Some("gzip"));
    assert_eq!(telemetry.otlp_headers(), &vec![(s("k"), s("v"))]);
    assert_eq!(telemetry.otlp_timeout(), 42);
}

#[test]
fn reads_the_test_database_url() {
    let env = RawEnv { test_database_url: Some(s("postgres://localhost/catlas_test")), ..RawEnv::default() };
    assert_eq!(test_database_url(&env), Ok(s("postgres://localhost/catlas_test")));
    let blank = RawEnv { test_database_url: Some(s("  ")), ..RawEnv::default() };
    let err = test_database_url(&blank).unwrap_err();
    assert_eq!(err.message(), "TEST_DATABASE_URL must be set");
}
