//! Writing items out: JSON, newline-delimited JSON and RSS documents, and a text table.
use vstd::prelude::*;
use crate::dates::{format_published_display, format_rss_date, rss_date_of, display_date_of};
use crate::error::PaiError;
use crate::item::{views, Item, ItemView};
use crate::kind::SourceKind;
use crate::text::{joined, chars_of, eq_ignore_ascii_case, eq_ignore_case_chars, owned, push_char};

verus! {

broadcast use vstd::string::group_string_axioms;

/// A document format for exported items.
#[derive(Debug, Clone, Copy, PartialEq, Eq, Structural)]
pub enum ExportFormat {
    Json,
    Ndjson,
    Rss,
}

impl ExportFormat {
    pub open spec fn name(self) -> Seq<char> {
        match self {
            ExportFormat::Json => seq!['j', 's', 'o', 'n'],
            ExportFormat::Ndjson => seq!['n', 'd', 'j', 's', 'o', 'n'],
            ExportFormat::Rss => seq!['r', 's', 's'],
        }
    }

    /// The format named `s`, up to ASCII letter case.
    pub open spec fn named(s: Seq<char>) -> Option<ExportFormat> {
        if eq_ignore_ascii_case(s, ExportFormat::Json.name()) {
            Some(ExportFormat::Json)
        } else if eq_ignore_ascii_case(s, ExportFormat::Ndjson.name()) {
            Some(ExportFormat::Ndjson)
        } else if eq_ignore_ascii_case(s, ExportFormat::Rss.name()) {
            Some(ExportFormat::Rss)
        } else {
            None
        }
    }

    /// Reads a format name, ignoring ASCII letter case.
    pub fn parse(s: &str) -> (r: Result<ExportFormat, PaiError>)
        ensures
            ExportFormat::named(s@) is Some ==> r == Ok::<ExportFormat, PaiError>(
                ExportFormat::named(s@)->0,
            ),
            ExportFormat::named(s@) is None ==> r matches Err(PaiError::InvalidArgument(_)),
    {
        let cs = chars_of(s);
        let json = "json";
        let ndjson = "ndjson";
        let rss = "rss";
        proof {
            reveal_strlit("json");
            reveal_strlit("ndjson");
            reveal_strlit("rss");
            assert(json@ =~= ExportFormat::Json.name());
            assert(ndjson@ =~= ExportFormat::Ndjson.name());
            assert(rss@ =~= ExportFormat::Rss.name());
        }
        if eq_ignore_case_chars(&cs, &chars_of(json)) {
            Ok(ExportFormat::Json)
        } else if eq_ignore_case_chars(&cs, &chars_of(ndjson)) {
            Ok(ExportFormat::Ndjson)
        } else if eq_ignore_case_chars(&cs, &chars_of(rss)) {
            Ok(ExportFormat::Rss)
        } else {
            let m = joined("Unsupported export format '", s);
            Err(PaiError::InvalidArgument(joined(m.as_str(), "'. Expected json, ndjson, or rss.")))
        }
    }
}

impl std::str::FromStr for ExportFormat {
    type Err = PaiError;

    fn from_str(s: &str) -> Result<ExportFormat, PaiError> {
        ExportFormat::parse(s)
    }
}

/// The fields of one RSS item.
#[derive(Debug, Clone)]
pub struct RssEntry {
    pub title: String,
    pub link: String,
    /// The item's id.
    pub guid: String,
    /// Whether the guid is a link to the item.
    pub guid_is_permalink: bool,
    pub pub_date: String,
    pub author: String,
    pub description: String,
    /// The item's source kind.
    pub category: String,
    /// The domain of the category, if any.
    pub category_domain: Option<String>,
}

/// An RSS item as mathematical values.
pub ghost struct RssEntryView {
    pub title: Seq<char>,
    pub link: Seq<char>,
    pub guid: Seq<char>,
    pub guid_is_permalink: bool,
    pub pub_date: Seq<char>,
    pub author: Seq<char>,
    pub description: Seq<char>,
    pub category: Seq<char>,
    pub category_domain: Option<Seq<char>>,
}

impl View for RssEntry {
    type V = RssEntryView;

    open spec fn view(&self) -> RssEntryView {
        RssEntryView {
            title: self.title@,
            link: self.link@,
            guid: self.guid@,
            guid_is_permalink: self.guid_is_permalink,
            pub_date: self.pub_date@,
            author: self.author@,
            description: self.description@,
            category: self.category@,
            category_domain: crate::item::opt_view(self.category_domain),
        }
    }
}

pub open spec fn rss_entry_views(v: Seq<RssEntry>) -> Seq<RssEntryView> {
    v.map_values(|e: RssEntry| e@)
}

/// The RSS item of `x`: title, else summary, else URL as title; summary, else content,
/// else nothing as description; "Unknown" without an author; the date in RFC 2822; the
/// id as a guid that is no permalink; the kind as the one category, without a domain.
pub open spec fn rss_entry_of(x: ItemView) -> RssEntryView {
    RssEntryView {
        title: match x.title {
            Some(t) => t,
            None => match x.summary {
                Some(s) => s,
                None => x.url,
            },
        },
        link: x.url,
        guid: x.id,
        guid_is_permalink: false,
        pub_date: rss_date_of(x.published_at),
        author: match x.author {
            Some(a) => a,
            None => "Unknown"@,
        },
        description: match x.summary {
            Some(s) => s,
            None => match x.content_html {
                Some(c) => c,
                None => Seq::empty(),
            },
        },
        category: x.source_kind.name(),
        category_domain: None,
    }
}

/// The RSS fields of an item.
pub fn rss_entry(x: &Item) -> (r: RssEntry)
    ensures
        r@ == rss_entry_of(x@),
{
    let title = match &x.title {
        Some(t) => t.clone(),
        None => match &x.summary {
            Some(s) => s.clone(),
            None => x.url.clone(),
        },
    };
    let description = match &x.summary {
        Some(s) => s.clone(),
        None => match &x.content_html {
            Some(c) => c.clone(),
            None => String::new(),
        },
    };
    let author = match &x.author {
        Some(a) => a.clone(),
        None => owned("Unknown"),
    };
    RssEntry {
        title,
        link: x.url.clone(),
        guid: x.id.clone(),
        guid_is_permalink: false,
        pub_date: format_rss_date(x.published_at.as_str()),
        author,
        description,
        category: x.source_kind.to_string(),
        category_domain: None,
    }
}

/// The RSS document that the rss crate writes for a channel and its items.
pub uninterp spec fn rss_text(
    title: Seq<char>,
    link: Seq<char>,
    description: Seq<char>,
    entries: Seq<RssEntryView>,
) -> Seq<char>;

/// Relies on the rss crate's Channel and its Display: an RSS 2.0 document of a channel
/// with the given title, link and description and one item per entry, each with the
/// entry's fields.
#[verifier::external_body]
fn rss_document(title: String, link: String, description: String, entries: Vec<RssEntry>) -> (r:
    String)
    ensures
        r@ == rss_text(title@, link@, description@, rss_entry_views(entries@)),
{
    let items = entries.into_iter().map(|e| rss::Item {
        title: Some(e.title), link: Some(e.link), author: Some(e.author),
        guid: Some(rss::Guid { value: e.guid, permalink: e.guid_is_permalink }),
        pub_date: Some(e.pub_date), description: Some(e.description),
        categories: vec![rss::Category { name: e.category, domain: e.category_domain }],
        ..Default::default()
    }).collect();
    rss::Channel { title, link, description, items, ..Default::default() }.to_string()
}

/// The RSS items of `items`, in order.
pub fn rss_entries(items: &Vec<Item>) -> (r: Vec<RssEntry>)
    ensures
        rss_entry_views(r@) == views(items@).map_values(|x: ItemView| rss_entry_of(x)),
{
    let mut out: Vec<RssEntry> = Vec::new();
    let mut i: usize = 0;
    while i < items.len()
        invariant
            i <= items@.len(),
            rss_entry_views(out@) =~= views(items@).map_values(|x: ItemView| rss_entry_of(x)).take(
                i as int,
            ),
        decreases items.len() - i,
    {
        let e = rss_entry(&items[i]);
        let ghost before = out@;
        out.push(e);
        assert(rss_entry_views(out@) =~= rss_entry_views(before).push(e@));
        i += 1;
    }
    out
}

pub open spec fn channel_title() -> Seq<char> {
    "Personal Activity Index"@
}

pub open spec fn channel_link() -> Seq<char> {
    "https://personal-activity-index.local/"@
}

/// An RSS channel of `items`, in order, described by `description`.
pub fn build_rss_channel(items: &Vec<Item>, description: &str) -> (r: String)
    ensures
        r@ == rss_text(
            channel_title(),
            channel_link(),
            description@,
            views(items@).map_values(|x: ItemView| rss_entry_of(x)),
        ),
{
    let entries = rss_entries(items);
    rss_document(
        owned("Personal Activity Index"),
        owned("https://personal-activity-index.local/"),
        owned(description),
        entries,
    )
}

/// A string written as a JSON string literal by serde_json.
pub uninterp spec fn json_quoted(s: Seq<char>) -> Seq<char>;

/// Relies on serde_json::to_string on a `str`: the JSON string literal of the text, with
/// quotes and escapes (serializing a `str` cannot fail).
#[verifier::external_body]
fn json_string(s: &str) -> (r: String)
    ensures
        r@ == json_quoted(s@),
{
    serde_json::to_string(s).unwrap_or_default()
}

/// A JSON string, or `null` for none.
pub open spec fn json_opt(o: Option<Seq<char>>) -> Seq<char> {
    match o {
        Some(s) => json_quoted(s),
        None => "null"@,
    }
}

fn json_opt_string(o: &Option<String>) -> (r: String)
    ensures
        r@ == json_opt(crate::item::opt_view(*o)),
{
    match o {
        Some(s) => json_string(s.as_str()),
        None => owned("null"),
    }
}

/// The compact JSON object of an item, fields in declaration order.
pub open spec fn item_json(x: ItemView) -> Seq<char> {
    "{\"id\":"@ + json_quoted(x.id) + ",\"source_kind\":"@ + json_quoted(x.source_kind.name())
        + ",\"source_id\":"@ + json_quoted(x.source_id) + ",\"author\":"@ + json_opt(x.author)
        + ",\"title\":"@ + json_opt(x.title) + ",\"summary\":"@ + json_opt(x.summary)
        + ",\"url\":"@ + json_quoted(x.url) + ",\"content_html\":"@ + json_opt(x.content_html)
        + ",\"published_at\":"@ + json_quoted(x.published_at) + ",\"created_at\":"@
        + json_quoted(x.created_at) + "}"@
}

/// The JSON object of an item as an element of a pretty-printed array: two spaces of
/// indent for braces, four for fields, one field per line.
pub open spec fn item_json_pretty(x: ItemView) -> Seq<char> {
    "  {\n    \"id\": "@ + json_quoted(x.id) + ",\n    \"source_kind\": "@ + json_quoted(
        x.source_kind.name(),
    ) + ",\n    \"source_id\": "@ + json_quoted(x.source_id) + ",\n    \"author\": "@ + json_opt(
        x.author,
    ) + ",\n    \"title\": "@ + json_opt(x.title) + ",\n    \"summary\": "@ + json_opt(x.summary)
        + ",\n    \"url\": "@ + json_quoted(x.url) + ",\n    \"content_html\": "@ + json_opt(
        x.content_html,
    ) + ",\n    \"published_at\": "@ + json_quoted(x.published_at) + ",\n    \"created_at\": "@
        + json_quoted(x.created_at) + "\n  }"@
}

/// Appends `b` to `a`.
fn put(a: &mut String, b: &str)
    ensures
        final(a)@ == old(a)@ + b@,
{
    a.append(b);
}

/// Writes an item as a compact JSON object.
pub fn item_to_json(x: &Item) -> (r: String)
    ensures
        r@ == item_json(x@),
{
    let mut s = owned("{\"id\":");
    put(&mut s, json_string(x.id.as_str()).as_str());
    put(&mut s, ",\"source_kind\":");
    put(&mut s, json_string(x.source_kind.as_str()).as_str());
    put(&mut s, ",\"source_id\":");
    put(&mut s, json_string(x.source_id.as_str()).as_str());
    put(&mut s, ",\"author\":");
    put(&mut s, json_opt_string(&x.author).as_str());
    put(&mut s, ",\"title\":");
    put(&mut s, json_opt_string(&x.title).as_str());
    put(&mut s, ",\"summary\":");
    put(&mut s, json_opt_string(&x.summary).as_str());
    put(&mut s, ",\"url\":");
    put(&mut s, json_string(x.url.as_str()).as_str());
    put(&mut s, ",\"content_html\":");
    put(&mut s, json_opt_string(&x.content_html).as_str());
    put(&mut s, ",\"published_at\":");
    put(&mut s, json_string(x.published_at.as_str()).as_str());
    put(&mut s, ",\"created_at\":");
    put(&mut s, json_string(x.created_at.as_str()).as_str());
    put(&mut s, "}");
    s
}

/// Writes an item as an element of a pretty-printed JSON array.
pub fn item_to_json_pretty(x: &Item) -> (r: String)
    ensures
        r@ == item_json_pretty(x@),
{
    let mut s = owned("  {\n    \"id\": ");
    put(&mut s, json_string(x.id.as_str()).as_str());
    put(&mut s, ",\n    \"source_kind\": ");
    put(&mut s, json_string(x.source_kind.as_str()).as_str());
    put(&mut s, ",\n    \"source_id\": ");
    put(&mut s, json_string(x.source_id.as_str()).as_str());
    put(&mut s, ",\n    \"author\": ");
    put(&mut s, json_opt_string(&x.author).as_str());
    put(&mut s, ",\n    \"title\": ");
    put(&mut s, json_opt_string(&x.title).as_str());
    put(&mut s, ",\n    \"summary\": ");
    put(&mut s, json_opt_string(&x.summary).as_str());
    put(&mut s, ",\n    \"url\": ");
    put(&mut s, json_string(x.url.as_str()).as_str());
    put(&mut s, ",\n    \"content_html\": ");
    put(&mut s, json_opt_string(&x.content_html).as_str());
    put(&mut s, ",\n    \"published_at\": ");
    put(&mut s, json_string(x.published_at.as_str()).as_str());
    put(&mut s, ",\n    \"created_at\": ");
    put(&mut s, json_string(x.created_at.as_str()).as_str());
    put(&mut s, "\n  }");
    s
}

/// The elements of a pretty-printed JSON array of `xs`, separated by `,` and a newline.
pub open spec fn pretty_elements(xs: Seq<ItemView>) -> Seq<char>
    decreases xs.len(),
{
    if xs.len() == 0 {
        Seq::empty()
    } else if xs.len() == 1 {
        item_json_pretty(xs[0])
    } else {
        pretty_elements(xs.drop_last()) + ",\n"@ + item_json_pretty(xs.last())
    }
}

/// A pretty-printed JSON array of `xs` and a final newline; `[]` when empty.
pub open spec fn json_export(xs: Seq<ItemView>) -> Seq<char> {
    if xs.len() == 0 {
        "[]\n"@
    } else {
        "[\n"@ + pretty_elements(xs) + "\n]\n"@
    }
}

/// One compact JSON object per line.
pub open spec fn ndjson_export(xs: Seq<ItemView>) -> Seq<char>
    decreases xs.len(),
{
    if xs.len() == 0 {
        Seq::empty()
    } else {
        ndjson_export(xs.drop_last()) + item_json(xs.last()) + "\n"@
    }
}

/// Writes items as a pretty-printed JSON array followed by a newline.
pub fn write_json(items: &Vec<Item>) -> (r: String)
    ensures
        r@ == json_export(views(items@)),
{
    if items.len() == 0 {
        return owned("[]\n");
    }
    let mut body = String::new();
    let mut i: usize = 0;
    assert(views(items@).take(0) =~= Seq::<ItemView>::empty());
    while i < items.len()
        invariant
            i <= items@.len(),
            body@ == pretty_elements(views(items@).take(i as int)),
        decreases items.len() - i,
    {
        assert(views(items@).take(i + 1).drop_last() =~= views(items@).take(i as int));
        if i > 0 {
            put(&mut body, ",\n");
        } else {
            assert(body@ + item_json_pretty(items@[0]@) =~= item_json_pretty(items@[0]@));
        }
        put(&mut body, item_to_json_pretty(&items[i]).as_str());
        i += 1;
    }
    assert(views(items@).take(i as int) =~= views(items@));
    let mut out = owned("[\n");
    put(&mut out, body.as_str());
    put(&mut out, "\n]\n");
    out
}

/// Writes items as newline-delimited JSON: one compact object per line.
pub fn write_ndjson(items: &Vec<Item>) -> (r: String)
    ensures
        r@ == ndjson_export(views(items@)),
{
    let mut out = String::new();
    let mut i: usize = 0;
    assert(views(items@).take(0) =~= Seq::<ItemView>::empty());
    while i < items.len()
        invariant
            i <= items@.len(),
            out@ == ndjson_export(views(items@).take(i as int)),
        decreases items.len() - i,
    {
        assert(views(items@).take(i + 1).drop_last() =~= views(items@).take(i as int));
        put(&mut out, item_to_json(&items[i]).as_str());
        put(&mut out, "\n");
        i += 1;
    }
    assert(views(items@).take(i as int) =~= views(items@));
    out
}

/// The description of exported RSS channels.
pub open spec fn export_description() -> Seq<char> {
    "Aggregated feed exported by the Personal Activity Index CLI."@
}

/// Writes items as an RSS document followed by a newline.
pub fn write_rss(items: &Vec<Item>) -> (r: String)
    ensures
        r@ == rss_text(
            channel_title(),
            channel_link(),
            export_description(),
            views(items@).map_values(|x: ItemView| rss_entry_of(x)),
        ) + "\n"@,
{
    let mut out = build_rss_channel(items, "Aggregated feed exported by the Personal Activity Index CLI.");
    put(&mut out, "\n");
    out
}

/// The export of `items` in `format`.
pub fn export_items(items: &Vec<Item>, format: ExportFormat) -> (r: String)
    ensures
        format == ExportFormat::Json ==> r@ == json_export(views(items@)),
        format == ExportFormat::Ndjson ==> r@ == ndjson_export(views(items@)),
        format == ExportFormat::Rss ==> r@ == rss_text(
            channel_title(),
            channel_link(),
            export_description(),
            views(items@).map_values(|x: ItemView| rss_entry_of(x)),
        ) + "\n"@,
{
    match format {
        ExportFormat::Json => write_json(items),
        ExportFormat::Ndjson => write_ndjson(items),
        ExportFormat::Rss => write_rss(items),
    }
}

/// At most `max` characters of `v`: when cut and `max > 3`, the last three are dots.
pub open spec fn truncated(v: Seq<char>, max: nat) -> Seq<char> {
    if v.len() <= max {
        v
    } else if max <= 3 {
        v.take(max as int)
    } else {
        v.take(max - 3) + "..."@
    }
}

/// Cuts `value` to at most `max_chars` characters, marking a cut with an ellipsis.
pub fn truncate_for_column(value: &str, max_chars: usize) -> (r: String)
    ensures
        r@ == truncated(value@, max_chars as nat),
{
    let n = value.unicode_len();
    if n <= max_chars {
        return owned(value);
    }
    if max_chars <= 3 {
        return owned(value.substring_char(0, max_chars));
    }
    joined(value.substring_char(0, max_chars - 3), "...")
}

/// `s` followed by spaces up to `width` characters.
pub open spec fn padded(s: Seq<char>, width: nat) -> Seq<char> {
    if s.len() >= width {
        s
    } else {
        s + Seq::new((width - s.len()) as nat, |i: int| ' ')
    }
}

/// Pads `s` with spaces on the right to `width` characters.
pub fn pad_right(s: &str, width: usize) -> (r: String)
    ensures
        r@ == padded(s@, width as nat),
{
    let n = s.unicode_len();
    let mut out = owned(s);
    let mut k: usize = n;
    while k < width
        invariant
            n == s@.len(),
            n <= k,
            k <= width || k == n,
            out@ == s@ + Seq::new((k - n) as nat, |i: int| ' '),
        decreases width - k,
    {
        push_char(&mut out, ' ');
        assert(out@ =~= s@ + Seq::new((k + 1 - n) as nat, |i: int| ' '));
        k += 1;
    }
    assert(s@.len() < width ==> out@ =~= padded(s@, width as nat));
    assert(s@.len() >= width ==> out@ =~= s@);
    out
}

/// A row of the item table: each cell cut and padded to its column's width.
pub open spec fn table_row(a: Seq<char>, b: Seq<char>, c: Seq<char>, d: Seq<char>) -> Seq<char> {
    "| "@ + padded(a, 19) + " | "@ + padded(b, 9) + " | "@ + padded(c, 24) + " | "@ + padded(d, 60)
        + " |"@
}

/// The text shown as an item's title: its title, else its summary, else its URL.
pub open spec fn shown_title(x: ItemView) -> Seq<char> {
    match x.title {
        Some(t) => t,
        None => match x.summary {
            Some(s) => s,
            None => x.url,
        },
    }
}

/// The table row of an item: date, kind, source and title.
pub open spec fn item_row(x: ItemView) -> Seq<char> {
    table_row(
        truncated(display_date_of(x.published_at), 19),
        truncated(x.source_kind.name(), 9),
        truncated(x.source_id, 24),
        truncated(shown_title(x), 60),
    )
}

fn row_text(a: &str, b: &str, c: &str, d: &str) -> (r: String)
    ensures
        r@ == table_row(a@, b@, c@, d@),
{
    let mut s = owned("| ");
    put(&mut s, pad_right(a, 19).as_str());
    put(&mut s, " | ");
    put(&mut s, pad_right(b, 9).as_str());
    put(&mut s, " | ");
    put(&mut s, pad_right(c, 24).as_str());
    put(&mut s, " | ");
    put(&mut s, pad_right(d, 60).as_str());
    put(&mut s, " |");
    s
}

/// The table row of an item.
pub fn item_table_row(x: &Item) -> (r: String)
    ensures
        r@ == item_row(x@),
{
    let published = truncate_for_column(format_published_display(x.published_at.as_str()).as_str(), 19);
    let kind = truncate_for_column(x.source_kind.as_str(), 9);
    let source = truncate_for_column(x.source_id.as_str(), 24);
    let title_text: &str = match &x.title {
        Some(t) => t.as_str(),
        None => match &x.summary {
            Some(s) => s.as_str(),
            None => x.url.as_str(),
        },
    };
    let title = truncate_for_column(title_text, 60);
    row_text(published.as_str(), kind.as_str(), source.as_str(), title.as_str())
}

/// `n` dashes.
pub fn dashes(n: usize) -> (r: String)
    ensures
        r@ == Seq::new(n as nat, |i: int| '-'),
{
    let mut out = String::new();
    let mut k: usize = 0;
    while k < n
        invariant
            k <= n,
            out@ == Seq::new(k as nat, |i: int| '-'),
        decreases n - k,
    {
        push_char(&mut out, '-');
        assert(out@ =~= Seq::new((k + 1) as nat, |i: int| '-'));
        k += 1;
    }
    out
}

/// The header of the item table.
pub open spec fn table_header() -> Seq<char> {
    table_row("Published"@, "Kind"@, "Source"@, "Title"@)
}

/// The rows of `xs`, each followed by a newline.
pub open spec fn table_rows(xs: Seq<ItemView>) -> Seq<char>
    decreases xs.len(),
{
    if xs.len() == 0 {
        Seq::empty()
    } else {
        table_rows(xs.drop_last()) + item_row(xs.last()) + "\n"@
    }
}

/// The item table: a rule, the header, a rule, one row per item, and a closing rule,
/// each rule as long as the header.
pub open spec fn items_table(xs: Seq<ItemView>) -> Seq<char> {
    let rule = Seq::new(table_header().len(), |i: int| '-');
    rule + "\n"@ + table_header() + "\n"@ + rule + "\n"@ + table_rows(xs) + rule + "\n"@
}

/// Writes the item table.
pub fn write_items_table(items: &Vec<Item>) -> (r: String)
    ensures
        r@ == items_table(views(items@)),
{
    let header = row_text("Published", "Kind", "Source", "Title");
    let rule = dashes(header.as_str().unicode_len());
    let mut out = String::new();
    put(&mut out, rule.as_str());
    put(&mut out, "\n");
    put(&mut out, header.as_str());
    put(&mut out, "\n");
    put(&mut out, rule.as_str());
    put(&mut out, "\n");
    let ghost top = out@;
    let mut i: usize = 0;
    assert(views(items@).take(0) =~= Seq::<ItemView>::empty());
    assert(out@ =~= top + table_rows(views(items@).take(0)));
    while i < items.len()
        invariant
            i <= items@.len(),
            out@ == top + table_rows(views(items@).take(i as int)),
        decreases items.len() - i,
    {
        assert(views(items@).take(i + 1).drop_last() =~= views(items@).take(i as int));
        put(&mut out, item_table_row(&items[i]).as_str());
        put(&mut out, "\n");
        assert(out@ =~= top + table_rows(views(items@).take(i + 1)));
        i += 1;
    }
    assert(views(items@).take(i as int) =~= views(items@));
    put(&mut out, rule.as_str());
    put(&mut out, "\n");
    out
}

} // verus!
