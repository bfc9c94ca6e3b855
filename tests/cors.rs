use pai::access::{cors_decision, cors_enabled, is_cors_authorized, CorsDecision};
use pai::config::{extract_domain, extract_root_domain, Config, CorsConfig};

#[test]
fn cors_config_exact_match() {
    let cors = CorsConfig {
        allowed_origins: vec!["https://desertthunder.dev".to_string(), "http://localhost:4321".to_string()],
        dev_key: None,
    };
    assert!(cors.is_origin_allowed("https://desertthunder.dev"));
    assert!(cors.is_origin_allowed("http://localhost:4321"));
    assert!(!cors.is_origin_allowed("https://evil.com"));
}

#[test]
fn cors_config_same_root_domain() {
    let cors = CorsConfig { allowed_origins: vec!["https://desertthunder.dev".to_string()], dev_key: None };
    assert!(cors.is_origin_allowed("https://pai.desertthunder.dev"));
    assert!(cors.is_origin_allowed("https://api.desertthunder.dev"));
    assert!(cors.is_origin_allowed("https://desertthunder.dev"));
    assert!(!cors.is_origin_allowed("https://evil.dev"));
}

#[test]
fn cors_config_localhost_requires_exact_match() {
    let cors = CorsConfig { allowed_origins: vec!["http://localhost:4321".to_string()], dev_key: None };
    assert!(cors.is_origin_allowed("http://localhost:4321"));
    assert!(!cors.is_origin_allowed("http://localhost:3000"));
}

#[test]
fn cors_config_empty_origins_denies_all() {
    let cors = CorsConfig { allowed_origins: vec![], dev_key: None };
    assert!(!cors.is_origin_allowed("https://desertthunder.dev"));
    assert!(!cors.is_origin_allowed("http://localhost:4321"));
}

#[test]
fn cors_config_dev_key_valid() {
    let cors = CorsConfig { allowed_origins: vec![], dev_key: Some("secret-dev-key".to_string()) };
    assert!(cors.is_dev_key_valid(Some("secret-dev-key")));
    assert!(!cors.is_dev_key_valid(Some("wrong-key")));
    assert!(!cors.is_dev_key_valid(None));
}

#[test]
fn cors_config_dev_key_none() {
    let cors = CorsConfig { allowed_origins: vec![], dev_key: None };
    assert!(!cors.is_dev_key_valid(Some("any-key")));
    assert!(!cors.is_dev_key_valid(None));
}

#[test]
fn extract_domain_https() {
    assert_eq!(extract_domain("https://desertthunder.dev/path"), "desertthunder.dev");
    assert_eq!(extract_domain("https://pai.desertthunder.dev"), "pai.desertthunder.dev");
}

#[test]
fn extract_domain_http() {
    assert_eq!(extract_domain("http://localhost:4321/api"), "localhost");
    assert_eq!(extract_domain("http://example.com"), "example.com");
}

#[test]
fn extract_root_domain_multi_level() {
    assert_eq!(extract_root_domain("pai.desertthunder.dev"), Some("desertthunder.dev".to_string()));
    assert_eq!(extract_root_domain("api.example.com"), Some("example.com".to_string()));
    assert_eq!(extract_root_domain("a.b.c.example.org"), Some("example.org".to_string()));
}

#[test]
fn extract_root_domain_single_part() {
    assert_eq!(extract_root_domain("localhost"), None);
}

#[test]
fn extract_root_domain_two_parts() {
    assert_eq!(extract_root_domain("example.com"), Some("example.com".to_string()));
}

#[test]
fn default_config_has_no_sources() {
    let config = Config::default();
    assert!(config.sources.substack.is_none());
    assert!(config.sources.bluesky.is_none());
    assert!(config.sources.leaflet.is_empty());
    assert!(config.sources.bearblog.is_empty());
    assert!(!cors_enabled(&config.cors));
}

#[test]
fn requests_are_authorized_by_key_then_origin() {
    let cors = CorsConfig {
        allowed_origins: vec!["https://desertthunder.dev".to_string()],
        dev_key: Some("k".to_string()),
    };
    assert!(cors_enabled(&cors));
    assert!(is_cors_authorized(&cors, None, None));
    assert!(is_cors_authorized(&cors, Some("https://evil.com"), Some("k")));
    assert!(!is_cors_authorized(&cors, Some("https://pai.desertthunder.dev"), Some("bad")));
    assert!(is_cors_authorized(&cors, Some("https://pai.desertthunder.dev"), None));
    assert!(!is_cors_authorized(&cors, Some("https://evil.com"), None));
}

#[test]
fn cors_decisions() {
    let cors = CorsConfig { allowed_origins: vec!["https://desertthunder.dev".to_string()], dev_key: None };
    assert_eq!(cors_decision(&cors, true, Some("https://evil.com"), None), CorsDecision::Forbidden);
    assert_eq!(
        cors_decision(&cors, true, Some("https://desertthunder.dev"), None),
        CorsDecision::Preflight { allow_origin: Some("https://desertthunder.dev".to_string()) }
    );
    assert_eq!(cors_decision(&cors, false, Some("https://evil.com"), None), CorsDecision::Forbidden);
    assert_eq!(
        cors_decision(&cors, false, Some("https://a.desertthunder.dev"), None),
        CorsDecision::Proceed { allow_origin: Some("https://a.desertthunder.dev".to_string()) }
    );
    assert_eq!(cors_decision(&cors, false, None, None), CorsDecision::Proceed { allow_origin: None });
    assert_eq!(cors_decision(&cors, false, None, Some("wrong")), CorsDecision::Proceed { allow_origin: None });
}
