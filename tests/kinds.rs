use pai::error::PaiError;
use pai::export::ExportFormat;
use pai::kind::SourceKind;
use std::str::FromStr;

#[test]
fn source_kind_display() {
    assert_eq!(SourceKind::Substack.to_string(), "substack");
    assert_eq!(SourceKind::Bluesky.to_string(), "bluesky");
    assert_eq!(SourceKind::Leaflet.to_string(), "leaflet");
    assert_eq!(SourceKind::BearBlog.to_string(), "bearblog");
}

#[test]
fn source_kind_parse() {
    assert_eq!("substack".parse::<SourceKind>().unwrap(), SourceKind::Substack);
    assert_eq!("BLUESKY".parse::<SourceKind>().unwrap(), SourceKind::Bluesky);
    assert_eq!("Leaflet".parse::<SourceKind>().unwrap(), SourceKind::Leaflet);
    assert_eq!("bearblog".parse::<SourceKind>().unwrap(), SourceKind::BearBlog);
    assert_eq!("BEARBLOG".parse::<SourceKind>().unwrap(), SourceKind::BearBlog);
    assert!("invalid".parse::<SourceKind>().is_err());
}

#[test]
fn error_unknown_source_kind() {
    let err = "unknown".parse::<SourceKind>().unwrap_err();
    assert!(matches!(err, PaiError::UnknownSourceKind(_)));
    assert_eq!(err.to_string(), "Unknown source kind: unknown");
}

#[test]
fn source_kind_round_trip_any_case() {
    for k in [SourceKind::Substack, SourceKind::Bluesky, SourceKind::Leaflet, SourceKind::BearBlog] {
        let name = k.to_string();
        assert_eq!(SourceKind::parse(&name).unwrap(), k);
        assert_eq!(SourceKind::parse(&name.to_uppercase()).unwrap(), k);
        assert_eq!(k.as_str(), name);
    }
    assert!(matches!(SourceKind::parse(""), Err(PaiError::UnknownSourceKind(s)) if s.is_empty()));
    assert!(SourceKind::parse(" substack").is_err());
}

#[test]
fn error_messages_name_their_kind() {
    assert_eq!(PaiError::InvalidArgument("x".to_string()).to_string(), "Invalid argument: x");
    assert_eq!(PaiError::Storage("x".to_string()).to_string(), "Storage error: x");
    assert_eq!(PaiError::Fetch("x".to_string()).to_string(), "Fetch error: x");
    assert_eq!(PaiError::Parse("x".to_string()).to_string(), "Parse error: x");
    assert_eq!(PaiError::Config("x".to_string()).to_string(), "Configuration error: x");
    assert_eq!(PaiError::Io("x".to_string()).to_string(), "IO error: x");
}

#[test]
fn export_format_parsing() {
    assert!(matches!(ExportFormat::from_str("json").unwrap(), ExportFormat::Json));
    assert!(matches!(ExportFormat::from_str("NDJSON").unwrap(), ExportFormat::Ndjson));
    assert!(matches!(ExportFormat::from_str("rss").unwrap(), ExportFormat::Rss));
    assert!(ExportFormat::from_str("invalid").is_err());
}

#[test]
fn export_format_error_is_invalid_argument() {
    assert!(matches!(ExportFormat::parse("xml"), Err(PaiError::InvalidArgument(_))));
    assert_eq!(ExportFormat::parse("Rss").unwrap(), ExportFormat::Rss);
}

#[test]
fn source_kind_parse_follows_unicode_lower_case() {
    assert_eq!(SourceKind::parse("blues\u{212A}y").unwrap(), SourceKind::Bluesky);
    assert_eq!(SourceKind::parse("SUBSTACK").unwrap(), SourceKind::Substack);
    assert!(SourceKind::parse("bluesky ").is_err());
}
