use pai::export::{
    build_rss_channel, export_items, item_to_json, rss_entry, truncate_for_column, write_items_table, ExportFormat,
};
use pai::item::Item;
use pai::kind::SourceKind;

fn sample_item() -> Item {
    Item {
        id: "sample-id".to_string(),
        source_kind: SourceKind::Substack,
        source_id: "patternmatched.substack.com".to_string(),
        author: Some("Pattern Matched".to_string()),
        title: Some("Test entry".to_string()),
        summary: Some("Summary".to_string()),
        url: "https://patternmatched.substack.com/p/test".to_string(),
        content_html: None,
        published_at: "2024-01-01T00:00:00Z".to_string(),
        created_at: "2024-01-01T00:00:00Z".to_string(),
    }
}

#[test]
fn json_export_serializes_items() {
    let output = export_items(&vec![sample_item()], ExportFormat::Json);
    assert!(output.trim_start().starts_with('['));
    assert!(output.contains("sample-id"));
}

#[test]
fn ndjson_export_serializes_items() {
    let output = export_items(&vec![sample_item()], ExportFormat::Ndjson);
    assert!(output.lines().next().unwrap().contains("sample-id"));
}

#[test]
fn rss_export_contains_items() {
    let feed = build_rss_channel(&vec![sample_item()], "Aggregated feed exported by the Personal Activity Index CLI.");
    assert!(feed.contains("<rss"));
    assert!(feed.contains("<item>"));
    assert!(feed.contains("sample-id"));
}

#[test]
fn table_writer_emits_rows() {
    let output = write_items_table(&vec![sample_item()]);
    assert!(output.contains("Published"));
    assert!(output.contains("patternmatched"));
}

#[test]
fn truncate_column_adds_ellipsis() {
    assert_eq!(truncate_for_column("abcdefghijklmnopqrstuvwxyz", 8), "abcde...");
}

#[test]
fn truncate_column_edges() {
    assert_eq!(truncate_for_column("abc", 3), "abc");
    assert_eq!(truncate_for_column("abcdef", 3), "abc");
    assert_eq!(truncate_for_column("abcdef", 0), "");
    assert_eq!(truncate_for_column("ééééé", 4), "é...");
}

#[test]
fn every_format_holds_id_and_title_once() {
    let items = vec![sample_item()];
    for format in [ExportFormat::Json, ExportFormat::Ndjson, ExportFormat::Rss] {
        let out = export_items(&items, format);
        assert_eq!(out.matches("sample-id").count(), 1, "{format:?}");
        assert_eq!(out.matches("Test entry").count(), 1, "{format:?}");
    }
}

#[test]
fn json_export_is_pretty_and_exact() {
    let out = export_items(&vec![sample_item()], ExportFormat::Json);
    let expected = "[\n  {\n    \"id\": \"sample-id\",\n    \"source_kind\": \"substack\",\n    \"source_id\": \"patternmatched.substack.com\",\n    \"author\": \"Pattern Matched\",\n    \"title\": \"Test entry\",\n    \"summary\": \"Summary\",\n    \"url\": \"https://patternmatched.substack.com/p/test\",\n    \"content_html\": null,\n    \"published_at\": \"2024-01-01T00:00:00Z\",\n    \"created_at\": \"2024-01-01T00:00:00Z\"\n  }\n]\n";
    assert_eq!(out, expected);
    assert_eq!(export_items(&vec![], ExportFormat::Json), "[]\n");
    assert_eq!(export_items(&vec![], ExportFormat::Ndjson), "");
}

#[test]
fn json_strings_are_escaped() {
    let mut item = sample_item();
    item.title = Some("say \"hi\"\n".to_string());
    let line = item_to_json(&item);
    assert!(line.contains(r#""title":"say \"hi\"\n""#));
    assert!(line.starts_with("{\"id\":\"sample-id\",\"source_kind\":\"substack\""));
}

#[test]
fn rss_fields_fall_back() {
    let mut item = sample_item();
    item.title = None;
    item.author = None;
    item.published_at = "2024-01-01T12:00:00+00:00".to_string();
    let e = rss_entry(&item);
    assert_eq!(e.title, "Summary");
    assert_eq!(e.author, "Unknown");
    assert_eq!(e.description, "Summary");
    assert_eq!(e.category, "substack");
    assert_eq!(e.guid, "sample-id");
    assert_eq!(e.pub_date, "Mon, 1 Jan 2024 12:00:00 +0000");
    item.summary = None;
    item.content_html = Some("<p>x</p>".to_string());
    let e = rss_entry(&item);
    assert_eq!(e.title, item.url);
    assert_eq!(e.description, "<p>x</p>");
}

#[test]
fn table_rows_are_padded_to_the_header() {
    let out = write_items_table(&vec![sample_item()]);
    let lines: Vec<&str> = out.lines().collect();
    assert_eq!(lines.len(), 5);
    assert_eq!(lines[0].len(), lines[1].len());
    assert_eq!(lines[3].chars().count(), lines[1].chars().count());
    assert!(lines[3].starts_with("| 2024-01-01 00:00    | substack  |"));
}
