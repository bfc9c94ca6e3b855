use pai::bluesky::{
    at_uri_to_url, author_feed_url, create_title, ingest_posts, post_id, posts_from_json, BlueskyFetcher,
    BlueskyPost,
};
use pai::config::{BearBlogConfig, BlueskyConfig, Config, LeafletConfig, SubstackConfig};
use pai::error::PaiError;
use pai::feeds::{
    bearblog_feed_url, ingest_feed, leaflet_feed_url, normalize_source_id, substack_feed_url, BearBlogFetcher,
    LeafletFetcher, SubstackFetcher,
};
use pai::item::{ListFilter, Storage};
use pai::kind::SourceKind;
use pai::settings::{bearblog_sources, leaflet_sources, parse_origin_list, parse_source_list, split_source_entry};
use pai::store::MemoryStorage;
use pai::sync::{sync_all_sources, sync_each_source, sync_plan, HttpResponse, SourceFetcher, SyncTarget};

const NOW: &str = "2025-06-01T00:00:00+00:00";

const VALID_RSS: &str = r#"<?xml version="1.0" encoding="UTF-8"?>
<rss version="2.0">
<channel>
    <title>Test BearBlog</title>
    <link>https://test.bearblog.dev</link>
    <description>Test blog</description>
    <item>
        <title>Test Post</title>
        <link>https://test.bearblog.dev/test-post</link>
        <guid>test-guid</guid>
        <pubDate>Mon, 01 Jan 2024 12:00:00 +0000</pubDate>
        <description>Test summary</description>
    </item>
</channel>
</rss>"#;

const EMPTY_RSS: &str = r#"<?xml version="1.0" encoding="UTF-8"?>
<rss version="2.0">
<channel>
    <title>Empty Feed</title>
</channel>
</rss>"#;

fn timeline(entries: &[&str]) -> String {
    format!("{{\"feed\":[{}],\"cursor\":\"c1\"}}", entries.join(","))
}

fn timeline_entry(uri: &str, record: &str, reason: Option<&str>) -> String {
    let reason = reason.map(|r| format!(",\"reason\":{r}")).unwrap_or_default();
    format!(
        "{{\"post\":{{\"uri\":\"{uri}\",\"cid\":\"cid123\",\"author\":{{\"did\":\"did:plc:test\",\"handle\":\"test.bsky.social\"}},\"record\":{record},\"indexedAt\":\"2024-01-01T12:00:00Z\"}}{reason}}}"
    )
}

#[test]
fn extract_source_id_https() {
    assert_eq!(
        SubstackFetcher::normalize_source_id("https://patternmatched.substack.com"),
        "patternmatched.substack.com"
    );
}

#[test]
fn extract_source_id_http() {
    assert_eq!(SubstackFetcher::normalize_source_id("http://test.substack.com/"), "test.substack.com");
}

#[test]
fn test_normalize_source_id_https() {
    assert_eq!(normalize_source_id("https://patternmatched.substack.com"), "patternmatched.substack.com");
}

#[test]
fn test_normalize_source_id_http() {
    assert_eq!(normalize_source_id("http://example.com/"), "example.com");
}

#[test]
fn test_normalize_source_id_trailing_slash() {
    assert_eq!(normalize_source_id("https://test.leaflet.pub/"), "test.leaflet.pub");
}

#[test]
fn test_normalize_source_id_no_protocol() {
    assert_eq!(normalize_source_id("example.com"), "example.com");
}

#[test]
fn normalize_source_id_strips_repeated_schemes_and_slashes() {
    assert_eq!(normalize_source_id("https://https://x.dev///"), "x.dev");
}

#[test]
fn test_substack_feed_url_construction() {
    assert_eq!(
        substack_feed_url("https://patternmatched.substack.com"),
        "https://patternmatched.substack.com/feed"
    );
}

#[test]
fn test_bluesky_api_url_construction() {
    assert_eq!(
        author_feed_url("desertthunder.dev"),
        "https://public.api.bsky.app/xrpc/app.bsky.feed.getAuthorFeed?actor=desertthunder.dev&limit=50"
    );
}

#[test]
fn test_leaflet_feed_url_construction() {
    assert_eq!(leaflet_feed_url("https://desertthunder.leaflet.pub"), "https://desertthunder.leaflet.pub/rss");
}

#[test]
fn test_bearblog_feed_url_construction() {
    assert_eq!(bearblog_feed_url("https://desertthunder.bearblog.dev"), "https://desertthunder.bearblog.dev/feed/");
}

#[test]
fn fetchers_build_their_feed_urls() {
    let s = SubstackFetcher::new(SubstackConfig { enabled: true, base_url: "https://a.substack.com/".to_string() });
    assert_eq!(s.feed_url(), "https://a.substack.com//feed");
    assert_eq!(s.source_id(), "a.substack.com");
    let b = BearBlogFetcher::new(BearBlogConfig {
        enabled: true,
        id: "b".to_string(),
        base_url: "https://b.bearblog.dev/".to_string(),
    });
    assert_eq!(b.feed_url(), "https://b.bearblog.dev/feed/");
    let l = LeafletFetcher::new(LeafletConfig {
        enabled: true,
        id: "l".to_string(),
        base_url: "https://l.leaflet.pub//".to_string(),
    });
    assert_eq!(l.feed_url(), "https://l.leaflet.pub/rss");
    let y = BlueskyFetcher::new(BlueskyConfig { enabled: true, handle: "me.dev".to_string() });
    assert_eq!(y.feed_url(), author_feed_url("me.dev"));
}

#[test]
fn bearblog_parse_valid_rss() {
    let mut storage = MemoryStorage::new();
    let n = ingest_feed(SourceKind::BearBlog, "test", VALID_RSS, NOW, &mut storage).unwrap();
    assert_eq!(n, 1);
    let items = storage.list_items(&ListFilter::default()).unwrap();
    assert_eq!(items.len(), 1);
    assert_eq!(items[0].title.as_deref(), Some("Test Post"));
}

#[test]
fn bearblog_parse_invalid_rss() {
    let mut storage = MemoryStorage::new();
    let result = ingest_feed(SourceKind::BearBlog, "test", "this is not valid XML", NOW, &mut storage);
    assert!(result.is_err());
}

#[test]
fn bearblog_parse_empty_rss() {
    let mut storage = MemoryStorage::new();
    assert_eq!(ingest_feed(SourceKind::BearBlog, "test", EMPTY_RSS, NOW, &mut storage).unwrap(), 0);
}

#[test]
fn substack_parse_valid_rss() {
    let mut storage = MemoryStorage::new();
    let fetcher = SubstackFetcher::new(SubstackConfig { enabled: true, base_url: "https://test.substack.com".to_string() });
    assert_eq!(fetcher.ingest(VALID_RSS, NOW, &mut storage).unwrap(), 1);
    let items = storage.list_items(&ListFilter::default()).unwrap();
    assert_eq!(items.len(), 1);
    assert_eq!(items[0].title.as_deref(), Some("Test Post"));
    assert_eq!(items[0].source_id, "test.substack.com");
    assert_eq!(items[0].source_kind, SourceKind::Substack);
}

#[test]
fn substack_parse_invalid_rss() {
    let mut storage = MemoryStorage::new();
    let fetcher = SubstackFetcher::new(SubstackConfig { enabled: true, base_url: "https://test.substack.com".to_string() });
    assert!(fetcher.ingest("this is not valid XML", NOW, &mut storage).is_err());
}

#[test]
fn substack_parse_empty_rss() {
    let mut storage = MemoryStorage::new();
    let fetcher = SubstackFetcher::new(SubstackConfig { enabled: true, base_url: "https://test.substack.com".to_string() });
    assert_eq!(fetcher.ingest(EMPTY_RSS, NOW, &mut storage).unwrap(), 0);
}

#[test]
fn feed_entry_becomes_canonical_item() {
    let mut storage = MemoryStorage::new();
    ingest_feed(SourceKind::Leaflet, "pub-id", VALID_RSS, NOW, &mut storage).unwrap();
    let items = storage.list_items(&ListFilter::default()).unwrap();
    let item = &items[0];
    assert_eq!(item.id, "test-guid");
    assert_eq!(item.url, "https://test.bearblog.dev/test-post");
    assert_eq!(item.title.as_deref(), Some("Test Post"));
    assert_eq!(item.summary.as_deref(), Some("Test summary"));
    assert_eq!(item.published_at, "2024-01-01T12:00:00+00:00");
    assert_eq!(item.created_at, NOW);
    assert_eq!(item.source_id, "pub-id");
    assert_eq!(item.source_kind, SourceKind::Leaflet);
}

#[test]
fn malformed_feed_is_a_parse_error_and_stores_nothing() {
    let mut storage = MemoryStorage::new();
    let result = ingest_feed(SourceKind::Substack, "s", "<rss><channel><item>", NOW, &mut storage);
    assert!(matches!(result, Err(PaiError::Parse(_))));
    assert_eq!(storage.count_items(), 0);
}

#[test]
fn entry_without_date_or_link_falls_back() {
    let rss = r#"<?xml version="1.0"?><rss version="2.0"><channel><title>t</title>
        <item><guid>only-guid</guid><title>No date</title></item></channel></rss>"#;
    let mut storage = MemoryStorage::new();
    ingest_feed(SourceKind::BearBlog, "b", rss, NOW, &mut storage).unwrap();
    let item = storage.get_item("only-guid").unwrap();
    assert_eq!(item.url, "only-guid");
    assert_eq!(item.published_at, NOW);
}

#[test]
fn at_uri_to_url_valid() {
    let uri = "at://did:plc:abc123/app.bsky.feed.post/xyz789";
    let url = BlueskyFetcher::at_uri_to_url(uri, "user.bsky.social").unwrap();
    assert_eq!(url, "https://bsky.app/profile/user.bsky.social/post/xyz789");
}

#[test]
fn at_uri_to_url_invalid() {
    assert!(BlueskyFetcher::at_uri_to_url("invalid-uri", "user.bsky.social").is_err());
}

#[test]
fn at_uri_maps_to_profile_url_or_parse_error() {
    let url = at_uri_to_url("at://did:plc:abc123/app.bsky.feed.post/xyz789", "user.example").unwrap();
    assert_eq!(url, "https://bsky.app/profile/user.example/post/xyz789");
    assert!(matches!(at_uri_to_url("https://example.com/a/b/c", "h"), Err(PaiError::Parse(_))));
    assert!(matches!(at_uri_to_url("at://did", "h"), Err(PaiError::Parse(_))));
    assert!(at_uri_to_url("at://did/only", "h").is_ok());
}

#[test]
fn create_title_short_text() {
    assert_eq!(BlueskyFetcher::create_title("Short post"), "Short post");
}

#[test]
fn create_title_long_text() {
    let text = "This is a very long post that exceeds one hundred characters and should be truncated with ellipsis at the end";
    let title = BlueskyFetcher::create_title(text);
    assert!(title.ends_with("..."));
    assert_eq!(title.len(), 100);
}

#[test]
fn test_bluesky_title_truncation_short() {
    assert_eq!(create_title("Short post"), "Short post");
}

#[test]
fn test_bluesky_title_truncation_long() {
    let text = "a".repeat(150);
    let title = create_title(&text);
    assert_eq!(title.len(), 100);
    assert!(title.ends_with("..."));
}

#[test]
fn test_bluesky_title_truncation_boundary() {
    let text = "a".repeat(100);
    assert_eq!(create_title(&text), text);
}

#[test]
fn title_of_101_characters_is_cut_to_97_and_dots() {
    let text = "b".repeat(101);
    let title = create_title(&text);
    assert_eq!(title, format!("{}...", "b".repeat(97)));
    let wide = "é".repeat(120);
    let title = create_title(&wide);
    assert_eq!(title.chars().count(), 100);
    assert_eq!(title, format!("{}...", "é".repeat(97)));
}

#[test]
fn test_bluesky_post_id_extraction() {
    assert_eq!(post_id("at://did:plc:abc123/app.bsky.feed.post/3ld7xyqnvqk2a"), "3ld7xyqnvqk2a");
}

#[test]
fn test_bluesky_url_construction() {
    let url = at_uri_to_url("at://did:plc:abc123/app.bsky.feed.post/3ld7xyqnvqk2a", "desertthunder.dev").unwrap();
    assert_eq!(url, "https://bsky.app/profile/desertthunder.dev/post/3ld7xyqnvqk2a");
}

#[test]
fn extract_text_from_record() {
    let body = timeline(&[&timeline_entry(
        "at://test",
        r#"{"text":"Hello world","createdAt":"2024-01-01T12:00:00Z"}"#,
        None,
    )]);
    let posts = posts_from_json(&body).unwrap();
    assert_eq!(posts[0].text.as_deref().unwrap(), "Hello world");
    assert_eq!(posts[0].created_at.as_deref(), Some("2024-01-01T12:00:00Z"));
}

#[test]
fn extract_text_missing() {
    let body = timeline(&[&timeline_entry("at://test", r#"{"createdAt":"2024-01-01T12:00:00Z"}"#, None)]);
    let posts = posts_from_json(&body).unwrap();
    assert!(posts[0].text.is_none());
}

#[test]
fn is_original_post_true() {
    let body = timeline(&[&timeline_entry("at://test", "{}", None)]);
    let posts = posts_from_json(&body).unwrap();
    assert!(!posts[0].is_repost);
    let body = timeline(&[&timeline_entry("at://test", "{}", Some("null"))]);
    assert!(!posts_from_json(&body).unwrap()[0].is_repost);
}

#[test]
fn is_original_post_false_repost() {
    let body = timeline(&[&timeline_entry(
        "at://test",
        "{}",
        Some(r#"{"$type":"app.bsky.feed.defs#reasonRepost"}"#),
    )]);
    let posts = posts_from_json(&body).unwrap();
    assert!(posts[0].is_repost);
}

#[test]
fn timeline_of_wrong_shape_is_a_parse_error() {
    assert!(matches!(posts_from_json("not json"), Err(PaiError::Parse(_))));
    assert!(matches!(posts_from_json("{\"cursor\":null}"), Err(PaiError::Parse(_))));
    assert!(matches!(posts_from_json("{\"feed\":[{\"post\":{\"uri\":\"at://x\"}}]}"), Err(PaiError::Parse(_))));
    assert!(posts_from_json("{\"feed\":[]}").unwrap().is_empty());
}

#[test]
fn reposts_are_never_stored() {
    let body = timeline(&[
        &timeline_entry("at://did:plc:a/app.bsky.feed.post/own", r#"{"text":"mine"}"#, None),
        &timeline_entry(
            "at://did:plc:b/app.bsky.feed.post/theirs",
            r#"{"text":"theirs"}"#,
            Some(r#"{"$type":"app.bsky.feed.defs#reasonRepost"}"#),
        ),
        &timeline_entry("bad-uri", r#"{"text":"broken"}"#, None),
    ]);
    let fetcher = BlueskyFetcher::new(BlueskyConfig { enabled: true, handle: "me.bsky.social".to_string() });
    let mut storage = MemoryStorage::new();
    assert_eq!(fetcher.ingest(200, &body, NOW, &mut storage).unwrap(), 1);
    let items = storage.list_items(&ListFilter::default()).unwrap();
    assert_eq!(items.len(), 1);
    let item = &items[0];
    assert_eq!(item.id, "at://did:plc:a/app.bsky.feed.post/own");
    assert_eq!(item.url, "https://bsky.app/profile/test.bsky.social/post/own");
    assert_eq!(item.source_id, "me.bsky.social");
    assert_eq!(item.author.as_deref(), Some("test.bsky.social"));
    assert_eq!(item.title.as_deref(), Some("mine"));
    assert_eq!(item.summary.as_deref(), Some("mine"));
    assert_eq!(item.published_at, NOW);
    assert!(item.content_html.is_none());
}

#[test]
fn failing_status_is_a_fetch_error() {
    let fetcher = BlueskyFetcher::new(BlueskyConfig { enabled: true, handle: "me".to_string() });
    let mut storage = MemoryStorage::new();
    assert!(matches!(fetcher.ingest(500, "{\"feed\":[]}", NOW, &mut storage), Err(PaiError::Fetch(_))));
}

#[test]
fn posts_are_written_in_order() {
    let posts = vec![
        BlueskyPost {
            uri: "at://d/c/one".to_string(),
            handle: "h".to_string(),
            text: None,
            created_at: Some("2024-01-01T00:00:00Z".to_string()),
            is_repost: false,
        },
        BlueskyPost {
            uri: "at://d/c/one".to_string(),
            handle: "h".to_string(),
            text: Some("later".to_string()),
            created_at: Some("2024-01-02T00:00:00Z".to_string()),
            is_repost: false,
        },
    ];
    let mut storage = MemoryStorage::new();
    assert_eq!(ingest_posts(&posts, "h", NOW, &mut storage).unwrap(), 2);
    assert_eq!(storage.count_items(), 1);
    assert_eq!(storage.get_item("at://d/c/one").unwrap().summary.as_deref(), Some("later"));
}

#[test]
fn test_leaflet_config_parsing() {
    let (id, url) = split_source_entry("desertthunder:https://desertthunder.leaflet.pub").unwrap();
    assert_eq!(id, "desertthunder");
    assert_eq!(url, "https://desertthunder.leaflet.pub");
}

#[test]
fn test_leaflet_config_parsing_invalid() {
    assert!(split_source_entry("invalid-entry-no-colon").is_none());
}

#[test]
fn test_leaflet_config_parsing_multiple() {
    let configs = parse_source_list("id1:https://pub1.leaflet.pub,id2:https://pub2.leaflet.pub");
    assert_eq!(configs.len(), 2);
    assert_eq!(configs[0].0, "id1");
    assert_eq!(configs[0].1, "https://pub1.leaflet.pub");
    assert_eq!(configs[1].0, "id2");
    assert_eq!(configs[1].1, "https://pub2.leaflet.pub");
    let leaflets = leaflet_sources("id1:https://pub1.leaflet.pub,id2:https://pub2.leaflet.pub");
    assert_eq!(leaflets.len(), 2);
    assert!(leaflets[1].enabled);
}

#[test]
fn test_bearblog_config_parsing() {
    let (id, url) = split_source_entry("desertthunder:https://desertthunder.bearblog.dev").unwrap();
    assert_eq!(id, "desertthunder");
    assert_eq!(url, "https://desertthunder.bearblog.dev");
}

#[test]
fn test_bearblog_config_parsing_multiple() {
    let configs = bearblog_sources("id1:https://blog1.bearblog.dev,id2:https://blog2.bearblog.dev");
    assert_eq!(configs.len(), 2);
    assert_eq!(configs[0].id, "id1");
    assert_eq!(configs[0].base_url, "https://blog1.bearblog.dev");
    assert_eq!(configs[1].id, "id2");
    assert_eq!(configs[1].base_url, "https://blog2.bearblog.dev");
}

#[test]
fn source_lists_skip_pieces_without_a_colon() {
    let configs = parse_source_list(" a:x , nocolon,,b:y:z");
    assert_eq!(configs, vec![("a".to_string(), "x".to_string()), ("b".to_string(), "y:z".to_string())]);
    assert!(parse_source_list("").is_empty());
}

#[test]
fn origin_lists_are_trimmed() {
    assert_eq!(parse_origin_list("https://a.dev, http://localhost:4321"), vec!["https://a.dev", "http://localhost:4321"]);
}

fn sample_config() -> Config {
    let mut config = Config::default();
    config.sources.substack = Some(SubstackConfig { enabled: true, base_url: "https://test.substack.com/".to_string() });
    config.sources.bluesky = Some(BlueskyConfig { enabled: false, handle: "me.dev".to_string() });
    config.sources.leaflet = vec![
        LeafletConfig { enabled: true, id: "one".to_string(), base_url: "https://one.leaflet.pub".to_string() },
        LeafletConfig { enabled: false, id: "off".to_string(), base_url: "https://off.leaflet.pub".to_string() },
    ];
    config.sources.bearblog =
        vec![BearBlogConfig { enabled: true, id: "bb".to_string(), base_url: "https://bb.bearblog.dev".to_string() }];
    config
}

#[test]
fn sync_plan_selects_enabled_sources_in_order() {
    let config = sample_config();
    let plan = sync_plan(&config, None, None);
    let ids: Vec<&str> = plan.iter().map(|t| t.source_id.as_str()).collect();
    assert_eq!(ids, vec!["test.substack.com", "one", "bb"]);
    assert_eq!(plan[0].url, "https://test.substack.com//feed");
    assert_eq!(plan[1].url, "https://one.leaflet.pub/rss");
    let only = sync_plan(&config, Some(SourceKind::Leaflet), None);
    assert_eq!(only.len(), 1);
    let by_id = sync_plan(&config, None, Some("test.substack.com"));
    assert_eq!(by_id.len(), 1);
    assert_eq!(by_id[0].kind, SourceKind::Substack);
    assert!(sync_plan(&config, Some(SourceKind::Bluesky), None).is_empty());
}

#[test]
fn sync_all_sources_counts_synced_instances() {
    let config = sample_config();
    let mut storage = MemoryStorage::new();
    let fetch = |_t: &SyncTarget| Ok(HttpResponse { status: 200, body: VALID_RSS.to_string() });
    let n = sync_all_sources(&config, &mut storage, None, None, &fetch).unwrap();
    assert_eq!(n, 3);
    assert_eq!(storage.count_items(), 3);
}

#[test]
fn sync_all_sources_stops_at_first_failure() {
    let config = sample_config();
    let mut storage = MemoryStorage::new();
    let fetch = |t: &SyncTarget| {
        if t.kind == SourceKind::Leaflet {
            Err(PaiError::Fetch("down".to_string()))
        } else {
            Ok(HttpResponse { status: 200, body: VALID_RSS.to_string() })
        }
    };
    assert!(matches!(sync_all_sources(&config, &mut storage, None, None, &fetch), Err(PaiError::Fetch(_))));
    assert_eq!(storage.count_items(), 1);
    let outcomes = sync_each_source(&config, &mut storage, None, None, &fetch);
    assert_eq!(outcomes.len(), 3);
    assert!(outcomes[0].result.is_ok());
    assert!(outcomes[1].result.is_err());
    assert!(outcomes[2].result.is_ok());
    assert_eq!(storage.count_items(), 2);
}

#[test]
fn fetchers_share_one_interface() {
    let fetcher = LeafletFetcher::new(LeafletConfig {
        enabled: true,
        id: "one".to_string(),
        base_url: "https://one.leaflet.pub/".to_string(),
    });
    assert_eq!(fetcher.request_url(), "https://one.leaflet.pub/rss");
    let mut storage = MemoryStorage::new();
    let response = HttpResponse { status: 200, body: VALID_RSS.to_string() };
    assert_eq!(fetcher.sync_response(&response, NOW, &mut storage).unwrap(), 1);
    assert_eq!(storage.get_item("test-guid").unwrap().source_id, "one");
    let bad = HttpResponse { status: 200, body: "<<<".to_string() };
    assert!(matches!(fetcher.sync_response(&bad, NOW, &mut storage), Err(PaiError::Parse(_))));
}

#[test]
fn settings_become_enabled_sources() {
    let sources = pai::settings::sources_from_settings(
        Some("https://patternmatched.substack.com".to_string()),
        None,
        Some("a:https://a.leaflet.pub,broken".to_string()),
        None,
    );
    assert!(sources.substack.as_ref().unwrap().enabled);
    assert_eq!(sources.substack.unwrap().base_url, "https://patternmatched.substack.com");
    assert!(sources.bluesky.is_none());
    assert_eq!(sources.leaflet.len(), 1);
    assert_eq!(sources.leaflet[0].id, "a");
    assert!(sources.bearblog.is_empty());
    let cors = pai::settings::cors_from_settings(Some(" https://a.dev ,http://localhost:4321".to_string()), None);
    assert_eq!(cors.allowed_origins, vec!["https://a.dev", "http://localhost:4321"]);
    assert!(cors.dev_key.is_none());
}

#[test]
fn sync_routes_each_kind_to_its_reader() {
    let mut config = Config::default();
    config.sources.bluesky = Some(BlueskyConfig { enabled: true, handle: "me.bsky.social".to_string() });
    config.sources.bearblog =
        vec![BearBlogConfig { enabled: true, id: "bb".to_string(), base_url: "https://bb.bearblog.dev".to_string() }];
    let timeline_body =
        timeline(&[&timeline_entry("at://did:plc:a/app.bsky.feed.post/p1", r#"{"text":"hello"}"#, None)]);
    let fetch = |t: &SyncTarget| {
        let body = if t.kind == SourceKind::Bluesky { timeline_body.clone() } else { VALID_RSS.to_string() };
        Ok(HttpResponse { status: 200, body })
    };
    let mut storage = MemoryStorage::new();
    assert_eq!(sync_all_sources(&config, &mut storage, None, None, &fetch).unwrap(), 2);
    let post = storage.get_item("at://did:plc:a/app.bsky.feed.post/p1").unwrap();
    assert_eq!(post.source_kind, SourceKind::Bluesky);
    assert_eq!(post.source_id, "me.bsky.social");
    let only = sync_all_sources(&config, &mut storage, Some(SourceKind::Bluesky), Some("someone.else"), &fetch);
    assert_eq!(only.unwrap(), 0);
}

#[test]
fn feeds_declaring_media_rss_are_refused() {
    let rss = r#"<?xml version="1.0"?><rss version="2.0" xmlns:media="http://search.yahoo.com/mrss/"><channel><title>t</title>
        <item><guid>g</guid><media:text start="99999999999999999999999">x</media:text></item></channel></rss>"#;
    let mut storage = MemoryStorage::new();
    assert!(matches!(ingest_feed(SourceKind::Substack, "s", rss, NOW, &mut storage), Err(PaiError::Parse(_))));
    assert_eq!(storage.count_items(), 0);
}

#[test]
fn empty_plan_syncs_nothing() {
    let config = Config::default();
    let mut storage = MemoryStorage::new();
    let fetch = |_t: &SyncTarget| -> Result<HttpResponse, PaiError> { Err(PaiError::Fetch("unused".to_string())) };
    assert_eq!(sync_all_sources(&config, &mut storage, None, None, &fetch).unwrap(), 0);
}
