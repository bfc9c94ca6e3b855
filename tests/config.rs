use pai::config::Config;
use pai::error::PaiError;
use std::str::FromStr;

#[test]
fn config_parse_empty() {
    let config = Config::from_str("").unwrap();
    assert!(config.sources.substack.is_none());
    assert!(config.sources.bluesky.is_none());
    assert!(config.sources.leaflet.is_empty());
}

#[test]
fn config_parse_substack() {
    let toml = r#"
[sources.substack]
enabled = true
base_url = "https://patternmatched.substack.com"
"#;
    let config = Config::from_str(toml).unwrap();
    let substack = config.sources.substack.as_ref().unwrap();
    assert!(substack.enabled);
    assert_eq!(substack.base_url, "https://patternmatched.substack.com");
}

#[test]
fn config_parse_bluesky() {
    let toml = r#"
[sources.bluesky]
enabled = true
handle = "desertthunder.dev"
"#;
    let config = Config::from_str(toml).unwrap();
    let bluesky = config.sources.bluesky.as_ref().unwrap();
    assert!(bluesky.enabled);
    assert_eq!(bluesky.handle, "desertthunder.dev");
}

#[test]
fn config_parse_leaflet_multiple() {
    let toml = r#"
[[sources.leaflet]]
enabled = true
id = "desertthunder"
base_url = "https://desertthunder.leaflet.pub"

[[sources.leaflet]]
enabled = true
id = "stormlightlabs"
base_url = "https://stormlightlabs.leaflet.pub"
"#;
    let config = Config::from_str(toml).unwrap();
    assert_eq!(config.sources.leaflet.len(), 2);
    assert_eq!(config.sources.leaflet[0].id, "desertthunder");
    assert_eq!(config.sources.leaflet[1].id, "stormlightlabs");
}

#[test]
fn config_parse_all_sources() {
    let toml = r#"
[database]
path = "/tmp/test.db"

[deployment]
mode = "sqlite"

[sources.substack]
enabled = true
base_url = "https://test.substack.com"

[sources.bluesky]
enabled = false
handle = "test.bsky.social"

[[sources.leaflet]]
enabled = true
id = "test"
base_url = "https://test.leaflet.pub"
"#;
    let config = Config::from_str(toml).unwrap();
    assert_eq!(config.database.path, Some("/tmp/test.db".to_string()));
    assert_eq!(config.deployment.mode, "sqlite");
    assert!(config.sources.substack.is_some());
    assert!(config.sources.bluesky.is_some());
    assert_eq!(config.sources.leaflet.len(), 1);
}

#[test]
fn config_parse_invalid_toml() {
    assert!(Config::from_str("this is not valid toml {{{").is_err());
}

#[test]
fn config_parse_missing_required_field() {
    let toml = r#"
[sources.substack]
enabled = true
"#;
    let result = Config::from_str(toml);
    assert!(result.is_err());
}

#[test]
fn config_default_enabled_false() {
    let toml = r#"
[sources.substack]
base_url = "https://test.substack.com"
"#;
    let config = Config::from_str(toml).unwrap();
    assert!(!config.sources.substack.as_ref().unwrap().enabled);
}

#[test]
fn config_parse_cors() {
    let toml = r#"
[cors]
allowed_origins = ["https://desertthunder.dev", "http://localhost:4321"]
dev_key = "my-dev-key"
"#;
    let config = Config::from_str(toml).unwrap();
    assert_eq!(config.cors.allowed_origins.len(), 2);
    assert_eq!(config.cors.allowed_origins[0], "https://desertthunder.dev");
    assert_eq!(config.cors.dev_key, Some("my-dev-key".to_string()));
}

#[test]
fn config_type_errors_are_config_errors() {
    assert!(matches!(Config::parse("[sources.substack]\nenabled = 1\nbase_url = \"x\""), Err(PaiError::Config(_))));
    assert!(matches!(Config::parse("sources = 5"), Err(PaiError::Config(_))));
    assert!(matches!(Config::parse("[[sources.bearblog]]\nid = \"a\""), Err(PaiError::Config(_))));
    let config = Config::parse("[deployment.cloudflare]\nworker_name = \"w\"\nd1_binding = \"DB\"\ndatabase_name = \"d\"\n[extra]\nx = 1").unwrap();
    assert_eq!(config.deployment.cloudflare.unwrap().d1_binding, "DB");
}
