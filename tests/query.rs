use pai::dates::{format_published_display, format_rss_date, normalize_since_input, parse_i64, parse_relative_minutes};
use pai::error::PaiError;
use pai::item::ListFilter;
use pai::kind::SourceKind;
use pai::query::{
    build_list_query, ensure_optional_limit, ensure_positive_limit, like_pattern_of, normalize_optional_string,
    FeedQuery, SqlValue, DEFAULT_LIMIT,
};

#[test]
fn ensure_positive_limit_rejects_zero() {
    assert!(ensure_positive_limit(0).is_err());
    assert!(ensure_optional_limit(Some(0)).is_err());
}

#[test]
fn limits_above_zero_pass_unchanged() {
    assert_eq!(ensure_positive_limit(7).unwrap(), 7);
    assert_eq!(ensure_optional_limit(None).unwrap(), None);
    assert_eq!(ensure_optional_limit(Some(1)).unwrap(), Some(1));
    assert!(matches!(ensure_positive_limit(0), Err(PaiError::InvalidArgument(_))));
}

#[test]
fn feed_query_defaults() {
    let filter = FeedQuery::default().into_normalized_filter().unwrap();
    assert_eq!(filter.limit, Some(DEFAULT_LIMIT));
    assert!(filter.source_kind.is_none());
    assert!(filter.source_id.is_none());
}

#[test]
fn server_feed_query_defaults() {
    let filter = FeedQuery::default().into_filter().unwrap();
    assert_eq!(filter.limit, Some(DEFAULT_LIMIT));
    assert!(filter.source_kind.is_none());
    assert!(filter.source_id.is_none());
}

#[test]
fn feed_query_respects_parameters() {
    let query = FeedQuery {
        source_kind: Some(SourceKind::Bluesky),
        source_id: Some(" desertthunder.dev ".to_string()),
        limit: Some(5),
        since: Some("2024-01-01T00:00:00Z".to_string()),
        q: Some(" rust ".to_string()),
    };
    let filter = query.into_normalized_filter().unwrap();
    assert_eq!(filter.limit, Some(5));
    assert_eq!(filter.source_kind, Some(SourceKind::Bluesky));
    assert_eq!(filter.source_id.unwrap(), "desertthunder.dev");
    assert_eq!(filter.query.unwrap(), "rust");
    assert_eq!(filter.since.unwrap(), "2024-01-01T00:00:00+00:00");
}

#[test]
fn server_feed_query_respects_parameters() {
    let query = FeedQuery {
        source_kind: Some(SourceKind::Bluesky),
        source_id: Some(" desertthunder.dev ".to_string()),
        limit: Some(5),
        since: Some("2024-01-01T00:00:00Z".to_string()),
        q: Some(" rust ".to_string()),
    };
    let filter = query.into_filter().unwrap();
    assert_eq!(filter.limit, Some(5));
    assert_eq!(filter.source_kind, Some(SourceKind::Bluesky));
    assert_eq!(filter.source_id.as_deref(), Some("desertthunder.dev"));
    assert_eq!(filter.query.as_deref(), Some("rust"));
    assert_eq!(filter.since.as_deref(), Some("2024-01-01T00:00:00Z"));
}

#[test]
fn feed_query_rejects_zero_limit() {
    let err = FeedQuery { limit: Some(0), ..Default::default() }.into_normalized_filter().unwrap_err();
    assert!(matches!(err, PaiError::InvalidArgument(_)));
}

#[test]
fn server_feed_query_rejects_zero_limit() {
    let err = FeedQuery { limit: Some(0), ..Default::default() }.into_filter().unwrap_err();
    assert!(matches!(err, PaiError::InvalidArgument(_)));
}

#[test]
fn blank_parameters_count_as_absent() {
    assert_eq!(normalize_optional_string(Some("   ".to_string())), None);
    assert_eq!(normalize_optional_string(Some("\t x y \n".to_string())), Some("x y".to_string()));
    assert_eq!(normalize_optional_string(None), None);
    let filter = FeedQuery { q: Some("  ".to_string()), since: Some(" ".to_string()), ..Default::default() }
        .into_normalized_filter()
        .unwrap();
    assert!(filter.query.is_none());
    assert!(filter.since.is_none());
}

#[test]
fn normalize_since_accepts_iso8601() {
    let since = normalize_since_input(Some("2024-01-01T00:00:00Z".to_string())).unwrap();
    assert_eq!(since.unwrap(), "2024-01-01T00:00:00+00:00");
}

#[test]
fn normalize_since_converts_offsets_to_utc() {
    let since = normalize_since_input(Some("2024-01-01T02:00:00+02:00".to_string())).unwrap();
    assert_eq!(since.unwrap(), "2024-01-01T00:00:00+00:00");
    let since = normalize_since_input(Some("Mon, 01 Jan 2024 12:00:00 +0000".to_string())).unwrap();
    assert_eq!(since.unwrap(), "2024-01-01T12:00:00+00:00");
}

#[test]
fn normalize_since_relative_is_in_the_past() {
    let since = normalize_since_input(Some("3d".to_string())).unwrap().unwrap();
    let now = normalize_since_input(Some("0m".to_string())).unwrap().unwrap();
    assert!(since < now);
}

#[test]
fn normalize_since_rejects_garbage() {
    assert!(matches!(normalize_since_input(Some("yesterday".to_string())), Err(PaiError::InvalidArgument(_))));
    assert_eq!(normalize_since_input(None).unwrap(), None);
}

#[test]
fn relative_times_read_as_minutes() {
    assert_eq!(parse_relative_minutes("7d"), Some(7 * 1440));
    assert_eq!(parse_relative_minutes("24H"), Some(24 * 60));
    assert_eq!(parse_relative_minutes("60m"), Some(60));
    assert_eq!(parse_relative_minutes("2w"), Some(2 * 10080));
    assert_eq!(parse_relative_minutes("-1h"), Some(-60));
    assert_eq!(parse_relative_minutes("d"), None);
    assert_eq!(parse_relative_minutes("5y"), None);
    assert_eq!(parse_relative_minutes("9223372036854775807d"), None);
}

#[test]
fn decimal_numbers_read_like_std() {
    for s in ["0", "42", "+42", "-42", "9223372036854775807", "-9223372036854775808", "9223372036854775808", "", "-", "+", "4x", " 4"] {
        assert_eq!(parse_i64(s), s.parse::<i64>().ok(), "{s}");
    }
}

#[test]
fn dates_render_for_rss_and_tables() {
    assert_eq!(format_rss_date("2024-01-01T12:00:00+00:00"), "Mon, 1 Jan 2024 12:00:00 +0000");
    assert_eq!(format_rss_date("not a date"), "not a date");
    assert_eq!(format_rss_date("Mon, 01 Jan 2024 12:00:00 +0200"), "Mon, 1 Jan 2024 12:00:00 +0200");
    assert_eq!(format_published_display("2024-01-01T12:30:00+02:00"), "2024-01-01 10:30");
    assert_eq!(format_published_display("Mon, 01 Jan 2024 12:00:00 +0000"), "2024-01-01 12:00");
    assert_eq!(format_published_display("n/a"), "n/a");
}

#[test]
fn list_query_without_constraints() {
    let q = build_list_query(&ListFilter::default());
    assert_eq!(
        q.sql,
        "SELECT id, source_kind, source_id, author, title, summary, url, content_html, published_at, created_at FROM items WHERE 1=1 ORDER BY published_at DESC"
    );
    assert!(q.params.is_empty());
}

#[test]
fn list_query_with_every_constraint() {
    let filter = ListFilter {
        source_kind: Some(SourceKind::Leaflet),
        source_id: Some("one".to_string()),
        limit: Some(3),
        since: Some("2024-01-01".to_string()),
        query: Some("50%_off".to_string()),
    };
    let q = build_list_query(&filter);
    assert!(q.sql.ends_with(
        " AND source_kind = ? AND source_id = ? AND published_at >= ? AND (title LIKE ? ESCAPE '\\' OR summary LIKE ? ESCAPE '\\') ORDER BY published_at DESC LIMIT ?"
    ));
    assert_eq!(q.params.len(), 6);
    assert!(matches!(&q.params[0], SqlValue::Text(s) if s == "leaflet"));
    assert!(matches!(&q.params[3], SqlValue::Text(s) if s == "%50\\%\\_off%"));
    assert!(matches!(&q.params[5], SqlValue::Integer(3)));
}

#[test]
fn like_patterns_escape_wildcards() {
    assert_eq!(like_pattern_of("a\\b"), "%a\\\\b%");
    assert_eq!(like_pattern_of(""), "%%");
}
