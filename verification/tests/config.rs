use corelink::commands::config_show::{redact, render};
use corelink::commands::ping::ping_url;
use corelink::config::{default_endpoint, default_region, Config, ConfigError, DEFAULT_ENDPOINT, DEFAULT_REGION};

fn cfg(token: &str, endpoint: &str) -> Config {
    Config { token: token.to_string(), region: "eu-west-1".to_string(), endpoint: endpoint.to_string() }
}

#[test]
fn overrides_without_file_when_both_given() {
    let r = Config::load_with_overrides(
        Some("https://ep".to_string()),
        Some("ct_tok".to_string()),
        || -> Result<Config, ConfigError> { Err(ConfigError::Unavailable("no file".to_string())) },
    );
    let c = r.unwrap();
    assert_eq!(c.endpoint, "https://ep");
    assert_eq!(c.token, "ct_tok");
    assert_eq!(c.region, DEFAULT_REGION);
}

#[test]
fn overrides_both_given_keep_file_region() {
    let r = Config::load_with_overrides(
        Some("https://ep".to_string()),
        Some("ct_tok".to_string()),
        || Ok(cfg("ct_file", "https://file")),
    );
    assert_eq!(r.unwrap(), Config {
        token: "ct_tok".to_string(),
        region: "eu-west-1".to_string(),
        endpoint: "https://ep".to_string(),
    });
}

#[test]
fn overrides_both_given_empty_token_refused() {
    let r = Config::load_with_overrides(Some("https://ep".to_string()), Some(String::new()), || {
        Ok(cfg("ct_file", "https://file"))
    });
    assert!(matches!(r, Err(ConfigError::MissingToken)));
}

#[test]
fn overrides_apply_over_file() {
    let r = Config::load_with_overrides(Some("https://ep".to_string()), None, || Ok(cfg("ct_file", "https://file")));
    assert_eq!(r.unwrap(), cfg("ct_file", "https://ep"));
    let r = Config::load_with_overrides(None, Some("ct_flag".to_string()), || Ok(cfg("ct_file", "https://file")));
    assert_eq!(r.unwrap(), cfg("ct_flag", "https://file"));
}

#[test]
fn overrides_pass_on_load_error() {
    let r = Config::load_with_overrides(None, None, || Err(ConfigError::Unavailable("gone".to_string())));
    match r {
        Err(e) => assert_eq!(e.message(), "gone"),
        Ok(_) => panic!("a load error must be passed on"),
    }
}

#[test]
fn overrides_refuse_missing_token() {
    let r = Config::load_with_overrides(None, None, || Ok(cfg("", "https://file")));
    let e = r.unwrap_err();
    assert!(matches!(e, ConfigError::MissingToken));
    assert_eq!(
        e.message(),
        "no token found — pass --token, set CORELINK_TOKEN, or add `token` to ~/.corelink/config.toml"
    );
}

#[test]
fn require_token_refuses_empty() {
    assert!(matches!(Config::require_token(cfg("", "https://e")), Err(ConfigError::EmptyToken)));
    assert_eq!(Config::require_token(cfg("t", "https://e")).unwrap(), cfg("t", "https://e"));
    assert_eq!(ConfigError::EmptyToken.message(), "config.toml has empty `token`");
}

#[test]
fn defaults() {
    assert_eq!(default_endpoint(), DEFAULT_ENDPOINT);
    assert_eq!(default_endpoint(), "https://corelink-api.humangr.com");
    assert_eq!(default_region(), "auto");
}

#[test]
fn config_show_redacts_token() {
    assert_eq!(redact("short"), "***");
    assert_eq!(redact("12345678"), "***");
    assert_eq!(redact("ct_abcdefghij"), "ct_a…ghij");
    let c = cfg("ct_abcdefghij", "https://e");
    assert_eq!(render(&c), "endpoint = https://e\nregion   = eu-west-1\ntoken    = ct_a…ghij\n");
}

#[test]
fn ping_url_trims_slashes() {
    assert_eq!(ping_url("https://e//"), "https://e/v1/ping");
    assert_eq!(ping_url("https://e"), "https://e/v1/ping");
}
