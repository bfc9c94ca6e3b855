//! Sources that publish an RSS or Atom feed: Substack, Leaflet and BearBlog.
use vstd::prelude::*;
use crate::config::{without_scheme, strip_scheme, BearBlogConfig, LeafletConfig, SubstackConfig};
use crate::error::PaiError;
use crate::item::{
    copy_opt, lemma_tagged_take, lemma_upsert_all_written, opt_view, store_items, upsert_all, views,
    written_as, Item, ItemView, Storage,
};
use crate::kind::SourceKind;
use crate::text::{
    chars_of, contains_ignore_case, contains_ignore_case_chars, joined, owned, strip_trailing,
    strip_trailing_str,
};

verus! {

broadcast use vstd::string::group_string_axioms;

/// One entry of a syndication feed, as plain values.
#[derive(Debug, Clone)]
pub struct FeedEntry {
    /// The entry's identifier (an RSS guid, an Atom id).
    pub id: String,
    /// Its links, in document order.
    pub links: Vec<String>,
    pub title: Option<String>,
    pub summary: Option<String>,
    /// Names of its authors, in document order.
    pub authors: Vec<String>,
    /// Its full body.
    pub content: Option<String>,
    /// When it was published, in RFC 3339.
    pub published: Option<String>,
    /// When it was last updated, in RFC 3339.
    pub updated: Option<String>,
}

/// An entry's fields other than its id, as mathematical values.
pub ghost struct EntryFields {
    pub links: Seq<Seq<char>>,
    pub title: Option<Seq<char>>,
    pub summary: Option<Seq<char>>,
    pub authors: Seq<Seq<char>>,
    pub content: Option<Seq<char>>,
    pub published: Option<Seq<char>>,
    pub updated: Option<Seq<char>>,
}

pub open spec fn texts_view(v: Seq<String>) -> Seq<Seq<char>> {
    v.map_values(|s: String| s@)
}

pub open spec fn entry_fields(e: FeedEntry) -> EntryFields {
    EntryFields {
        links: texts_view(e.links@),
        title: opt_view(e.title),
        summary: opt_view(e.summary),
        authors: texts_view(e.authors@),
        content: opt_view(e.content),
        published: opt_view(e.published),
        updated: opt_view(e.updated),
    }
}

pub open spec fn entries_fields(es: Seq<FeedEntry>) -> Seq<EntryFields> {
    es.map_values(|e: FeedEntry| entry_fields(e))
}

/// The entries that feed_rs reads from a document, in document order, without their ids
/// (feed_rs makes up a random id for an entry with neither id nor link); none when the
/// document is no feed.
pub uninterp spec fn feed_of(body: Seq<char>) -> Option<Seq<EntryFields>>;

/// The XML namespace of the MediaRSS extension.
pub open spec fn media_rss_namespace() -> Seq<char> {
    "http://search.yahoo.com/mrss/"@
}

/// Relies on feed_rs::parser::parse: reads an RSS, Atom or JSON feed document and gives
/// its entries in document order, with each date written by chrono's `to_rfc3339`; fails
/// on a document that is no feed. A document that declares the MediaRSS namespace is left
/// out: feed_rs unwraps number parses in MediaRSS times and can panic there.
#[verifier::external_body]
fn parse_feed(body: &str) -> (r: Result<Vec<FeedEntry>, String>)
    requires
        !contains_ignore_case(body@, media_rss_namespace()),
    ensures
        r is Ok <==> feed_of(body@) is Some,
        r is Ok ==> entries_fields(r->Ok_0@) == feed_of(body@)->0,
{
    let feed = feed_rs::parser::parse(body.as_bytes()).map_err(|e| e.to_string())?;
    Ok(feed.entries.into_iter().map(|e| FeedEntry {
        id: e.id,
        links: e.links.into_iter().map(|l| l.href).collect(),
        title: e.title.map(|t| t.content),
        summary: e.summary.map(|t| t.content),
        authors: e.authors.into_iter().map(|a| a.name).collect(),
        content: e.content.and_then(|c| c.body),
        published: e.published.map(|d| d.to_rfc3339()),
        updated: e.updated.map(|d| d.to_rfc3339()),
    }).collect())
}

/// The item that feed entry `e` becomes: the first link (else the id) as URL, the first
/// author, and the publication date, else the update date, else `now`.
pub open spec fn entry_item(
    e: FeedEntry,
    kind: SourceKind,
    source_id: Seq<char>,
    now: Seq<char>,
) -> ItemView {
    ItemView {
        id: e.id@,
        source_kind: kind,
        source_id: source_id,
        author: if e.authors@.len() > 0 {
            Some(e.authors@[0]@)
        } else {
            None
        },
        title: opt_view(e.title),
        summary: opt_view(e.summary),
        url: if e.links@.len() > 0 {
            e.links@[0]@
        } else {
            e.id@
        },
        content_html: opt_view(e.content),
        published_at: match e.published {
            Some(p) => p@,
            None => match e.updated {
                Some(u) => u@,
                None => now,
            },
        },
        created_at: now,
    }
}

/// The items that the entries become, in feed order.
pub open spec fn entry_items(
    es: Seq<FeedEntry>,
    kind: SourceKind,
    source_id: Seq<char>,
    now: Seq<char>,
) -> Seq<ItemView> {
    es.map_values(|e: FeedEntry| entry_item(e, kind, source_id, now))
}

/// Maps one feed entry to an item of the given kind and source.
pub fn map_feed_entry(e: &FeedEntry, kind: SourceKind, source_id: &str, now: &str) -> (r: Item)
    ensures
        r@ == entry_item(*e, kind, source_id@, now@),
{
    let url = if e.links.len() > 0 {
        e.links[0].clone()
    } else {
        e.id.clone()
    };
    let author = if e.authors.len() > 0 {
        Some(e.authors[0].clone())
    } else {
        None
    };
    let published_at = match &e.published {
        Some(p) => p.clone(),
        None => match &e.updated {
            Some(u) => u.clone(),
            None => owned(now),
        },
    };
    Item {
        id: e.id.clone(),
        source_kind: kind,
        source_id: owned(source_id),
        author,
        title: copy_opt(&e.title),
        summary: copy_opt(&e.summary),
        url,
        content_html: copy_opt(&e.content),
        published_at,
        created_at: owned(now),
    }
}

/// Maps every entry, keeping feed order.
pub fn map_feed_entries(
    es: &Vec<FeedEntry>,
    kind: SourceKind,
    source_id: &str,
    now: &str,
) -> (r: Vec<Item>)
    ensures
        views(r@) == entry_items(es@, kind, source_id@, now@),
{
    let mut out: Vec<Item> = Vec::new();
    let mut i: usize = 0;
    while i < es.len()
        invariant
            i <= es@.len(),
            views(out@) =~= entry_items(es@, kind, source_id@, now@).take(i as int),
        decreases es.len() - i,
    {
        let x = map_feed_entry(&es[i], kind, source_id, now);
        let ghost before = out@;
        out.push(x);
        assert(views(out@) =~= views(before).push(x@));
        i += 1;
    }
    out
}

/// The body is a feed that is read: it does not declare MediaRSS, and feed_rs reads it.
pub open spec fn feed_readable(body: Seq<char>) -> bool {
    !contains_ignore_case(body, media_rss_namespace()) && feed_of(body) is Some
}

/// What ingesting `body` as a feed of `kind` from `source_id` gives: a parse error that
/// writes nothing when the body is no readable feed; otherwise its entries are written in
/// order as items, stopping at the first failed write, which is a storage error.
pub open spec fn feed_ingested(
    body: Seq<char>,
    kind: SourceKind,
    source_id: Seq<char>,
    now: Seq<char>,
    before: Seq<ItemView>,
    after: Seq<ItemView>,
    infallible: bool,
    r: Result<usize, PaiError>,
) -> bool {
    if !feed_readable(body) {
        r matches Err(PaiError::Parse(_)) && after == before
    } else {
        let fs = feed_of(body)->0;
        &&& r is Ok ==> r->Ok_0 == fs.len() && exists|es: Seq<FeedEntry>|
            entries_fields(es) == fs && after == upsert_all(
                before,
                #[trigger] entry_items(es, kind, source_id, now),
            )
        &&& r is Err ==> r->Err_0 is Storage && exists|es: Seq<FeedEntry>, k: int|
            entries_fields(es) == fs && 0 <= k < fs.len() && after == upsert_all(
                before,
                #[trigger] entry_items(es, kind, source_id, now).take(k),
            )
        &&& infallible ==> r is Ok
    }
}

/// Writes the entries of a feed document as items of `kind` from `source_id`, in feed
/// order, stopping at the first write that fails. A body that is no readable feed is a
/// parse error and writes nothing.
pub fn ingest_feed<S: Storage>(
    kind: SourceKind,
    source_id: &str,
    body: &str,
    now: &str,
    storage: &mut S,
) -> (r: Result<usize, PaiError>)
    ensures
        feed_ingested(
            body@,
            kind,
            source_id@,
            now@,
            old(storage).rows(),
            final(storage).rows(),
            old(storage).infallible(),
            r,
        ),
        final(storage).infallible() == old(storage).infallible(),
{
    let media = "http://search.yahoo.com/mrss/";
    if contains_ignore_case_chars(&chars_of(body), &chars_of(media)) {
        return Err(PaiError::Parse(owned("Feeds with MediaRSS extensions are not supported")));
    }
    match parse_feed(body) {
        Ok(entries) => {
            let r = ingest_entries(kind, source_id, &entries, now, storage);
            proof {
                let es = entries@;
                if r is Ok {
                    assert(storage.rows() == upsert_all(old(storage).rows(), entry_items(es, kind, source_id@, now@)));
                }
                if r is Err {
                    let k = choose|k: int| 0 <= k < entries@.len() && storage.rows() == upsert_all(
                        old(storage).rows(),
                        entry_items(entries@, kind, source_id@, now@).take(k),
                    );
                    assert(entries_fields(es) == feed_of(body@)->0 && 0 <= k < feed_of(body@)->0.len());
                }
            }
            r
        },
        Err(msg) => {
            let mut m = owned("Failed to parse RSS feed: ");
            m.append(msg.as_str());
            Err(PaiError::Parse(m))
        },
    }
}

/// Writes feed entries as items of `kind` from `source_id`, in feed order, stopping at
/// the first write that fails.
pub fn ingest_entries<S: Storage>(
    kind: SourceKind,
    source_id: &str,
    entries: &Vec<FeedEntry>,
    now: &str,
    storage: &mut S,
) -> (r: Result<usize, PaiError>)
    ensures
        r is Ok ==> r->Ok_0 == entries@.len() && final(storage).rows() == upsert_all(
            old(storage).rows(),
            entry_items(entries@, kind, source_id@, now@),
        ),
        r is Err ==> exists|k: int|
            0 <= k < entries@.len() && final(storage).rows() == upsert_all(
                old(storage).rows(),
                entry_items(entries@, kind, source_id@, now@).take(k),
            ),
        r is Err ==> r->Err_0 is Storage,
        old(storage).infallible() ==> r is Ok,
        final(storage).infallible() == old(storage).infallible(),
{
    let items = map_feed_entries(entries, kind, source_id, now);
    store_items(&items, storage)
}

/// `base_url` without scheme and trailing slashes: the source id of a Substack publication.
pub open spec fn normalized_source_id(base_url: Seq<char>) -> Seq<char> {
    strip_trailing(without_scheme(base_url), '/')
}

/// The source id of a publication that has no explicit id: its base URL without scheme
/// and trailing slashes.
pub fn normalize_source_id(base_url: &str) -> (r: String)
    ensures
        r@ == normalized_source_id(base_url@),
{
    let a = strip_scheme(base_url);
    strip_trailing_str(a.as_str(), '/')
}

pub open spec fn substack_feed_path() -> Seq<char> {
    seq!['/', 'f', 'e', 'e', 'd']
}

pub open spec fn bearblog_feed_path() -> Seq<char> {
    seq!['/', 'f', 'e', 'e', 'd', '/']
}

pub open spec fn leaflet_feed_path() -> Seq<char> {
    seq!['/', 'r', 's', 's']
}

/// `{base_url}/feed`.
pub fn substack_feed_url(base_url: &str) -> (r: String)
    ensures
        r@ == base_url@ + substack_feed_path(),
{
    let path = "/feed";
    proof {
        reveal_strlit("/feed");
        assert(path@ =~= substack_feed_path());
    }
    joined(base_url, path)
}

/// `{base_url}/feed/`, without doubling a trailing slash of `base_url`.
pub fn bearblog_feed_url(base_url: &str) -> (r: String)
    ensures
        r@ == strip_trailing(base_url@, '/') + bearblog_feed_path(),
{
    let path = "/feed/";
    proof {
        reveal_strlit("/feed/");
        assert(path@ =~= bearblog_feed_path());
    }
    let base = strip_trailing_str(base_url, '/');
    joined(base.as_str(), path)
}

/// `{base_url}/rss`, without doubling a trailing slash of `base_url`.
pub fn leaflet_feed_url(base_url: &str) -> (r: String)
    ensures
        r@ == strip_trailing(base_url@, '/') + leaflet_feed_path(),
{
    let path = "/rss";
    proof {
        reveal_strlit("/rss");
        assert(path@ =~= leaflet_feed_path());
    }
    let base = strip_trailing_str(base_url, '/');
    joined(base.as_str(), path)
}

/// Fetches a Substack publication's feed at `{base_url}/feed`.
#[derive(Debug, Clone)]
pub struct SubstackFetcher {
    pub config: SubstackConfig,
}

impl SubstackFetcher {
    pub fn new(config: SubstackConfig) -> (r: SubstackFetcher)
        ensures
            r.config == config,
    {
        SubstackFetcher { config }
    }

    /// Strips the scheme and trailing slashes from a base URL.
    pub fn normalize_source_id(base_url: &str) -> (r: String)
        ensures
            r@ == normalized_source_id(base_url@),
    {
        normalize_source_id(base_url)
    }

    /// The source id of the items: the base URL without scheme and trailing slashes.
    pub fn source_id(&self) -> (r: String)
        ensures
            r@ == normalized_source_id(self.config.base_url@),
    {
        normalize_source_id(self.config.base_url.as_str())
    }

    /// The URL of the feed.
    pub fn feed_url(&self) -> (r: String)
        ensures
            r@ == self.config.base_url@ + substack_feed_path(),
    {
        substack_feed_url(self.config.base_url.as_str())
    }

    /// Writes the entries of a fetched feed document as Substack items.
    pub fn ingest<S: Storage>(&self, body: &str, now: &str, storage: &mut S) -> (r: Result<
        usize,
        PaiError,
    >)
        ensures
            feed_ingested(
                body@,
                SourceKind::Substack,
                normalized_source_id(self.config.base_url@),
                now@,
                old(storage).rows(),
                final(storage).rows(),
                old(storage).infallible(),
                r,
            ),
            final(storage).infallible() == old(storage).infallible(),
    {
        let sid = self.source_id();
        ingest_feed(SourceKind::Substack, sid.as_str(), body, now, storage)
    }
}

/// Fetches a BearBlog publication's feed at `{base_url}/feed/`.
#[derive(Debug, Clone)]
pub struct BearBlogFetcher {
    pub config: BearBlogConfig,
}

impl BearBlogFetcher {
    pub fn new(config: BearBlogConfig) -> (r: BearBlogFetcher)
        ensures
            r.config == config,
    {
        BearBlogFetcher { config }
    }

    /// The URL of the feed.
    pub fn feed_url(&self) -> (r: String)
        ensures
            r@ == strip_trailing(self.config.base_url@, '/') + bearblog_feed_path(),
    {
        bearblog_feed_url(self.config.base_url.as_str())
    }

    /// Writes the entries of a fetched feed document as BearBlog items of this publication.
    pub fn ingest<S: Storage>(&self, body: &str, now: &str, storage: &mut S) -> (r: Result<
        usize,
        PaiError,
    >)
        ensures
            feed_ingested(
                body@,
                SourceKind::BearBlog,
                self.config.id@,
                now@,
                old(storage).rows(),
                final(storage).rows(),
                old(storage).infallible(),
                r,
            ),
            final(storage).infallible() == old(storage).infallible(),
    {
        ingest_feed(SourceKind::BearBlog, self.config.id.as_str(), body, now, storage)
    }
}

/// Fetches a Leaflet publication's feed at `{base_url}/rss`.
#[derive(Debug, Clone)]
pub struct LeafletFetcher {
    pub config: LeafletConfig,
}

impl LeafletFetcher {
    pub fn new(config: LeafletConfig) -> (r: LeafletFetcher)
        ensures
            r.config == config,
    {
        LeafletFetcher { config }
    }

    /// The URL of the feed.
    pub fn feed_url(&self) -> (r: String)
        ensures
            r@ == strip_trailing(self.config.base_url@, '/') + leaflet_feed_path(),
    {
        leaflet_feed_url(self.config.base_url.as_str())
    }

    /// Writes the entries of a fetched feed document as Leaflet items of this publication.
    pub fn ingest<S: Storage>(&self, body: &str, now: &str, storage: &mut S) -> (r: Result<
        usize,
        PaiError,
    >)
        ensures
            feed_ingested(
                body@,
                SourceKind::Leaflet,
                self.config.id@,
                now@,
                old(storage).rows(),
                final(storage).rows(),
                old(storage).infallible(),
                r,
            ),
            final(storage).infallible() == old(storage).infallible(),
    {
        ingest_feed(SourceKind::Leaflet, self.config.id.as_str(), body, now, storage)
    }
}


/// A feed ingest only adds or replaces rows of its own kind and source.
pub proof fn lemma_feed_ingest_written(
    body: Seq<char>,
    kind: SourceKind,
    source_id: Seq<char>,
    now: Seq<char>,
    before: Seq<ItemView>,
    after: Seq<ItemView>,
    infallible: bool,
    r: Result<usize, PaiError>,
)
    requires
        feed_ingested(body, kind, source_id, now, before, after, infallible, r),
    ensures
        written_as(before, after, kind, source_id),
{
    if !feed_readable(body) {
        assert forall|i: int| 0 <= i < after.len() implies before.contains(#[trigger] after[i]) by {
        }
    } else {
        let fs = feed_of(body)->0;
        if r is Ok {
            let es = choose|es: Seq<FeedEntry>|
                entries_fields(es) == fs && after == upsert_all(
                    before,
                    #[trigger] entry_items(es, kind, source_id, now),
                );
            lemma_upsert_all_written(before, entry_items(es, kind, source_id, now), kind, source_id);
        } else {
            let (es, k) = choose|es: Seq<FeedEntry>, k: int|
                entries_fields(es) == fs && 0 <= k < fs.len() && after == upsert_all(
                    before,
                    #[trigger] entry_items(es, kind, source_id, now).take(k),
                );
            lemma_tagged_take(entry_items(es, kind, source_id, now), k, kind, source_id);
            lemma_upsert_all_written(
                before,
                entry_items(es, kind, source_id, now).take(k),
                kind,
                source_id,
            );
        }
    }
}

} // verus!
