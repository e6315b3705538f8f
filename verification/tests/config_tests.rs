use bluefin_bot::config::{AppConfig, ConfigError, Environment};

#[test]
fn test_environment_as_str() {
    assert_eq!(Environment::Staging.as_str(), "staging");
    assert_eq!(Environment::Prod.as_str(), "prod");
}

#[test]
fn environment_defaults_to_staging() {
    assert_eq!(Environment::default(), Environment::Staging);
}

#[test]
fn secrets_require_a_private_key() {
    let missing = AppConfig::secrets_from(None, Some("0xabc".to_string()));
    assert_eq!(
        missing.unwrap_err(),
        ConfigError::EnvError("BLUEFIN_PRIVATE_KEY not set".to_string())
    );
    let empty = AppConfig::secrets_from(Some(String::new()), None);
    assert_eq!(
        empty.unwrap_err(),
        ConfigError::EnvError("BLUEFIN_PRIVATE_KEY is empty".to_string())
    );
}

#[test]
fn secrets_drop_an_empty_address() {
    let s = AppConfig::secrets_from(Some("abcd".to_string()), Some(String::new())).unwrap();
    assert_eq!(s.private_key, "abcd");
    assert_eq!(s.account_address, None);
    let s = AppConfig::secrets_from(Some("abcd".to_string()), Some("0x1".to_string())).unwrap();
    assert_eq!(s.account_address, Some("0x1".to_string()));
}

#[test]
fn config_error_texts() {
    assert_eq!(
        ConfigError::EnvError("x".to_string()).text(),
        "Environment variable error: x"
    );
    assert_eq!(ConfigError::LoadError("y".to_string()).text(), "Failed to load config: y");
}
