use std::collections::HashMap;

use engineqa_backend::config::{parse_decimal, AppConfig, ConfigError};

fn minimum_env() -> HashMap<String, String> {
    HashMap::from([
        (
            "INTERNAL_API_BASE_URL".to_string(),
            "https://internal-api.example.com".to_string(),
        ),
        ("INTERNAL_API_TOKEN".to_string(), "token-value".to_string()),
    ])
}

fn entries(vars: HashMap<String, String>) -> Vec<(String, String)> {
    vars.into_iter().collect()
}

#[test]
fn missing_internal_api_base_url_fails() {
    let mut vars = minimum_env();
    vars.remove("INTERNAL_API_BASE_URL");

    let result = AppConfig::from_map(&entries(vars));
    assert_eq!(
        result.err().unwrap(),
        ConfigError::MissingEnv("INTERNAL_API_BASE_URL")
    );
}

#[test]
fn missing_internal_api_token_fails() {
    let mut vars = minimum_env();
    vars.remove("INTERNAL_API_TOKEN");

    let result = AppConfig::from_map(&entries(vars));
    assert_eq!(
        result.err().unwrap(),
        ConfigError::MissingEnv("INTERNAL_API_TOKEN")
    );
}

#[test]
fn loads_defaults_when_optional_env_absent() {
    let vars = minimum_env();
    let config = AppConfig::from_map(&entries(vars)).ok().expect("config should load");

    assert_eq!(config.host, "127.0.0.1");
    assert_eq!(config.port, 8080);
    assert_eq!(config.infer_provider, "internal_api");
    assert_eq!(config.internal_api.chat_path, "/v1/chat/completions");
    assert_eq!(config.internal_api.embed_model, "ad-embed-v1");
    assert_eq!(config.internal_api.retry_embed_max, 3);
}

#[test]
fn values_are_trimmed_and_blank_counts_as_unset() {
    let mut vars = minimum_env();
    vars.insert("APP_HOST".to_string(), "  0.0.0.0 ".to_string());
    vars.insert("APP_PORT".to_string(), "   ".to_string());
    vars.insert("RETRY_CHAT_MAX".to_string(), " +5 ".to_string());
    let config = AppConfig::from_map(&entries(vars)).ok().unwrap();
    assert_eq!(config.host, "0.0.0.0");
    assert_eq!(config.port, 8080);
    assert_eq!(config.internal_api.retry_chat_max, 5);
}

#[test]
fn whitespace_only_token_is_missing() {
    let mut vars = minimum_env();
    vars.insert("INTERNAL_API_TOKEN".to_string(), " \t ".to_string());
    let result = AppConfig::from_map(&entries(vars));
    assert_eq!(result.err().unwrap(), ConfigError::MissingEnv("INTERNAL_API_TOKEN"));
}

#[test]
fn port_out_of_range_is_invalid() {
    let mut vars = minimum_env();
    vars.insert("APP_PORT".to_string(), "70000".to_string());
    let result = AppConfig::from_map(&entries(vars));
    assert_eq!(
        result.err().unwrap(),
        ConfigError::InvalidEnv {
            key: "APP_PORT",
            value: "70000".to_string(),
            reason: "expected unsigned 16-bit integer",
        }
    );
}

#[test]
fn overlap_must_be_smaller_than_chunk_size() {
    let mut vars = minimum_env();
    vars.insert("CHUNK_SIZE".to_string(), "100".to_string());
    vars.insert("CHUNK_OVERLAP".to_string(), "100".to_string());
    match AppConfig::from_map(&entries(vars)).err().unwrap() {
        ConfigError::InvalidEnv { key, value, .. } => {
            assert_eq!(key, "CHUNK_OVERLAP");
            assert_eq!(value, "100");
        }
        other => panic!("unexpected error {:?}", other),
    }
}

#[test]
fn decimal_literals_parse_within_bounds() {
    assert_eq!(parse_decimal("0", 10), Some(0));
    assert_eq!(parse_decimal("+42", 100), Some(42));
    assert_eq!(parse_decimal("65535", 65535), Some(65535));
    assert_eq!(parse_decimal("65536", 65535), None);
    assert_eq!(parse_decimal("18446744073709551615", u64::MAX), Some(u64::MAX));
    assert_eq!(parse_decimal("18446744073709551616", u64::MAX), None);
    assert_eq!(parse_decimal("", 10), None);
    assert_eq!(parse_decimal("+", 10), None);
    assert_eq!(parse_decimal("-1", 10), None);
    assert_eq!(parse_decimal("1a", 100), None);
}

#[test]
fn unicode_white_space_is_trimmed() {
    let mut vars = minimum_env();
    vars.insert("APP_HOST".to_string(), "\u{3000}host\u{a0}\u{2028}".to_string());
    vars.insert("KNOWLEDGE_DIR".to_string(), "\u{85}\u{2003}".to_string());
    let config = AppConfig::from_map(&entries(vars)).ok().unwrap();
    assert_eq!(config.host, "host");
    assert_eq!(config.knowledge_dir, "./knowledge");
}
