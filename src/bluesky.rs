//! The Bluesky source: original posts of one account, read from the public AT Protocol API.
use vstd::prelude::*;
use crate::config::BlueskyConfig;
use crate::error::PaiError;
use crate::item::{
    copy_opt, lemma_tagged_take, lemma_upsert_all_written, opt_view, store_items, tagged,
    upsert_all, views, written_as, Item, ItemView, Storage,
};
use crate::json::{json_of, json_view, member, member_of, parse_json, Json, JsonView};
use crate::kind::SourceKind;
use crate::text::{joined, 
    after_last, after_last_index, before_first, chars_eq, chars_of, count_char, find_char,
    owned, slice_owned,
};

verus! {

broadcast use vstd::string::group_string_axioms;

/// One entry of an account's timeline, as plain values.
#[derive(Debug, Clone)]
pub struct BlueskyPost {
    /// The post's AT URI.
    pub uri: String,
    /// Handle of the post's author.
    pub handle: String,
    /// The post's text.
    pub text: Option<String>,
    /// The creation time that the post declares.
    pub created_at: Option<String>,
    /// The entry is there because the account reposted it.
    pub is_repost: bool,
}

pub open spec fn at_scheme() -> Seq<char> {
    seq!['a', 't', ':']
}

/// `uri` has the shape `at:/` + authority + `/` + collection + `/` + record key.
pub open spec fn at_uri_valid(uri: Seq<char>) -> bool {
    count_char(uri, '/') >= 3 && before_first(uri, '/') == at_scheme()
}

/// The web page of the post with record key `post_id` by `handle`.
pub open spec fn post_page(handle: Seq<char>, post_id: Seq<char>) -> Seq<char> {
    "https://bsky.app/profile/"@ + handle + "/post/"@ + post_id
}

/// A title of at most 100 characters: the text itself, or its first 97 characters and
/// an ellipsis of three dots.
pub open spec fn title_of(text: Seq<char>) -> Seq<char> {
    if text.len() <= 100 {
        text
    } else {
        text.take(97) + seq!['.', '.', '.']
    }
}

/// Number of `c` in `cs`.
fn count_in(cs: &Vec<char>, c: char) -> (r: usize)
    ensures
        r == count_char(cs@, c),
{
    let mut n: usize = 0;
    let mut i: usize = 0;
    assert(cs@.take(0) =~= Seq::<char>::empty());
    while i < cs.len()
        invariant
            i <= cs@.len(),
            n <= i,
            n == count_char(cs@.take(i as int), c),
        decreases cs.len() - i,
    {
        assert(cs@.take(i + 1).drop_last() =~= cs@.take(i as int));
        if cs[i] == c {
            n += 1;
        }
        i += 1;
    }
    assert(cs@.take(i as int) =~= cs@);
    n
}

/// Creates a title from a post's text, cut to at most 100 characters.
pub fn create_title(text: &str) -> (r: String)
    ensures
        r@ == title_of(text@),
        r@.len() <= 100,
{
    let n = text.unicode_len();
    if n <= 100 {
        owned(text)
    } else {
        let head = text.substring_char(0, 97);
        let dots = "...";
        proof {
            reveal_strlit("...");
            assert(dots@ =~= seq!['.', '.', '.']);
        }
        joined(head, dots)
    }
}

/// The record key of a post: the part of its URI after the last `/`.
pub fn post_id(uri: &str) -> (r: String)
    ensures
        r@ == after_last(uri@, '/'),
{
    let cs = chars_of(uri);
    let n = cs.len();
    assert(cs@.subrange(0, n as int) =~= cs@);
    let k = after_last_index(&cs, '/', n);
    slice_owned(uri, k, n)
}

/// The web URL of the post `uri` by `handle`: a parse error unless `uri` is an AT URI.
pub fn at_uri_to_url(uri: &str, handle: &str) -> (r: Result<String, PaiError>)
    ensures
        at_uri_valid(uri@) ==> r is Ok && r->Ok_0@ == post_page(handle@, after_last(uri@, '/')),
        !at_uri_valid(uri@) ==> r matches Err(PaiError::Parse(_)),
{
    let cs = chars_of(uri);
    let slashes = count_in(&cs, '/');
    let head = slice_owned(uri, 0, find_char(&cs, '/'));
    let at = "at:";
    proof {
        reveal_strlit("at:");
        assert(at@ =~= at_scheme());
    }
    if slashes >= 3 && chars_eq(&chars_of(head.as_str()), &chars_of(at)) {
        let post_id = post_id(uri);
        let a = joined("https://bsky.app/profile/", handle);
        let b = joined(a.as_str(), "/post/");
        Ok(joined(b.as_str(), post_id.as_str()))
    } else {
        Err(PaiError::Parse(joined("Invalid AT URI: ", uri)))
    }
}

/// The item that an original post with a well-formed URI becomes.
pub open spec fn post_item(p: BlueskyPost, source_handle: Seq<char>, now: Seq<char>) -> ItemView {
    ItemView {
        id: p.uri@,
        source_kind: SourceKind::Bluesky,
        source_id: source_handle,
        author: Some(p.handle@),
        title: match p.text {
            Some(t) => Some(title_of(t@)),
            None => None,
        },
        summary: opt_view(p.text),
        url: post_page(p.handle@, after_last(p.uri@, '/')),
        content_html: None,
        published_at: match p.created_at {
            Some(c) => c@,
            None => now,
        },
        created_at: now,
    }
}

/// The post is stored: it is the account's own post and its URI is well formed.
pub open spec fn post_kept(p: BlueskyPost) -> bool {
    !p.is_repost && at_uri_valid(p.uri@)
}

/// The items that a timeline becomes, in timeline order: reposts and posts with a
/// malformed URI are skipped.
pub open spec fn post_items(ps: Seq<BlueskyPost>, source_handle: Seq<char>, now: Seq<char>) -> Seq<
    ItemView,
>
    decreases ps.len(),
{
    if ps.len() == 0 {
        Seq::empty()
    } else {
        let before = post_items(ps.drop_last(), source_handle, now);
        if post_kept(ps.last()) {
            before.push(post_item(ps.last(), source_handle, now))
        } else {
            before
        }
    }
}

/// The item of one post, if it is kept.
pub fn map_post(p: &BlueskyPost, source_handle: &str, now: &str) -> (r: Option<Item>)
    ensures
        post_kept(*p) ==> r is Some && r->0@ == post_item(*p, source_handle@, now@),
        !post_kept(*p) ==> r is None,
{
    if p.is_repost {
        return None;
    }
    let url = match at_uri_to_url(p.uri.as_str(), p.handle.as_str()) {
        Ok(u) => u,
        Err(_) => return None,
    };
    let title = match &p.text {
        Some(t) => Some(create_title(t.as_str())),
        None => None,
    };
    let published_at = match &p.created_at {
        Some(c) => c.clone(),
        None => owned(now),
    };
    Some(
        Item {
            id: p.uri.clone(),
            source_kind: SourceKind::Bluesky,
            source_id: owned(source_handle),
            author: Some(p.handle.clone()),
            title,
            summary: copy_opt(&p.text),
            url,
            content_html: None,
            published_at,
            created_at: owned(now),
        },
    )
}

/// The items of the kept posts, in timeline order.
pub fn map_posts(ps: &Vec<BlueskyPost>, source_handle: &str, now: &str) -> (r: Vec<Item>)
    ensures
        views(r@) == post_items(ps@, source_handle@, now@),
{
    let mut out: Vec<Item> = Vec::new();
    let mut i: usize = 0;
    assert(ps@.take(0) =~= Seq::<BlueskyPost>::empty());
    while i < ps.len()
        invariant
            i <= ps@.len(),
            views(out@) == post_items(ps@.take(i as int), source_handle@, now@),
        decreases ps.len() - i,
    {
        assert(ps@.take(i + 1).drop_last() =~= ps@.take(i as int));
        match map_post(&ps[i], source_handle, now) {
            Some(x) => {
                let ghost before = out@;
                out.push(x);
                assert(views(out@) =~= views(before).push(x@));
            },
            None => {},
        }
        i += 1;
    }
    assert(ps@.take(i as int) =~= ps@);
    out
}

/// Writes the account's own posts with well-formed URIs, in timeline order, stopping at
/// the first write that fails.
pub fn ingest_posts<S: Storage>(
    ps: &Vec<BlueskyPost>,
    source_handle: &str,
    now: &str,
    storage: &mut S,
) -> (r: Result<usize, PaiError>)
    ensures
        r is Ok ==> r->Ok_0 == post_items(ps@, source_handle@, now@).len() && final(storage).rows()
            == upsert_all(old(storage).rows(), post_items(ps@, source_handle@, now@)),
        r is Err ==> r->Err_0 is Storage && exists|k: int|
            0 <= k < post_items(ps@, source_handle@, now@).len() && final(storage).rows()
                == upsert_all(old(storage).rows(), post_items(ps@, source_handle@, now@).take(k)),
        old(storage).infallible() ==> r is Ok,
        final(storage).infallible() == old(storage).infallible(),
{
    let items = map_posts(ps, source_handle, now);
    store_items(&items, storage)
}

/// Every item that a timeline becomes comes from a post of the account itself, never
/// from a repost.
pub proof fn lemma_reposts_never_stored(ps: Seq<BlueskyPost>, source_handle: Seq<char>, now: Seq<char>)
    ensures
        forall|i: int|
            0 <= i < post_items(ps, source_handle, now).len() ==> exists|j: int|
                0 <= j < ps.len() && !ps[j].is_repost && #[trigger] post_items(
                    ps,
                    source_handle,
                    now,
                )[i] == post_item(ps[j], source_handle, now),
    decreases ps.len(),
{
    if ps.len() > 0 {
        let before = ps.drop_last();
        lemma_reposts_never_stored(before, source_handle, now);
        let xs = post_items(ps, source_handle, now);
        assert forall|i: int| 0 <= i < xs.len() implies exists|j: int|
            0 <= j < ps.len() && !ps[j].is_repost && #[trigger] xs[i] == post_item(
                ps[j],
                source_handle,
                now,
            ) by {
            let ys = post_items(before, source_handle, now);
            if i < ys.len() {
                let j = choose|j: int|
                    0 <= j < before.len() && !before[j].is_repost && ys[i] == post_item(
                        before[j],
                        source_handle,
                        now,
                    );
                assert(ps[j] == before[j]);
            } else {
                assert(ps[ps.len() - 1] == ps.last());
            }
        }
    }
}

/// A timeline entry as mathematical values.
pub ghost struct PostView {
    pub uri: Seq<char>,
    pub handle: Seq<char>,
    pub text: Option<Seq<char>>,
    pub created_at: Option<Seq<char>>,
    pub is_repost: bool,
}

pub open spec fn post_view(p: BlueskyPost) -> PostView {
    PostView {
        uri: p.uri@,
        handle: p.handle@,
        text: opt_view(p.text),
        created_at: opt_view(p.created_at),
        is_repost: p.is_repost,
    }
}

pub open spec fn post_views(ps: Seq<BlueskyPost>) -> Seq<PostView> {
    ps.map_values(|p: BlueskyPost| post_view(p))
}

/// The text of the member `key` of `j`, when it is a JSON string.
pub open spec fn text_member(j: JsonView, key: Seq<char>) -> Option<Seq<char>> {
    match member_of(j, key) {
        Some(JsonView::Str(s)) => Some(s),
        _ => None,
    }
}

/// The member `key` of `j` is absent, `null` or a string.
pub open spec fn optional_text_ok(j: JsonView, key: Seq<char>) -> bool {
    match member_of(j, key) {
        None => true,
        Some(JsonView::Null) => true,
        Some(JsonView::Str(_)) => true,
        _ => false,
    }
}

/// The post of a timeline entry: its `post` needs the strings `uri`, `cid` and
/// `indexedAt`, an `author` with the strings `did` and `handle` (and a `displayName` that
/// is a string if present), and a `record`, whose `text` and `createdAt` are read when
/// they are strings. The entry is a repost when it has a `reason` that is not `null`.
pub open spec fn post_of(e: JsonView) -> Option<PostView> {
    match member_of(e, "post"@) {
        Some(p) => match member_of(p, "author"@) {
            Some(a) => match member_of(p, "record"@) {
                Some(rec) => if text_member(p, "uri"@) is Some && text_member(p, "cid"@) is Some
                    && text_member(p, "indexedAt"@) is Some && text_member(a, "did"@) is Some
                    && text_member(a, "handle"@) is Some && optional_text_ok(a, "displayName"@) {
                    Some(
                        PostView {
                            uri: text_member(p, "uri"@)->0,
                            handle: text_member(a, "handle"@)->0,
                            text: text_member(rec, "text"@),
                            created_at: text_member(rec, "createdAt"@),
                            is_repost: match member_of(e, "reason"@) {
                                None => false,
                                Some(JsonView::Null) => false,
                                Some(_) => true,
                            },
                        },
                    )
                } else {
                    None
                },
                None => None,
            },
            None => None,
        },
        None => None,
    }
}

/// The posts of all entries, when every entry has one.
pub open spec fn posts_of(es: Seq<JsonView>) -> Option<Seq<PostView>>
    decreases es.len(),
{
    if es.len() == 0 {
        Some(Seq::empty())
    } else {
        match (posts_of(es.drop_last()), post_of(es.last())) {
            (Some(a), Some(p)) => Some(a.push(p)),
            _ => None,
        }
    }
}

/// The posts of an author-feed response: its `feed` array of entries (and a `cursor`
/// that is a string if present).
pub open spec fn timeline_of(doc: JsonView) -> Option<Seq<PostView>> {
    if !optional_text_ok(doc, "cursor"@) {
        None
    } else {
        match member_of(doc, "feed"@) {
            Some(JsonView::Array(es)) => posts_of(es),
            _ => None,
        }
    }
}

/// The posts of a response body: none when it is no JSON or no author-feed response.
pub open spec fn timeline_in(body: Seq<char>) -> Option<Seq<PostView>> {
    match json_of(body) {
        Some(doc) => timeline_of(doc),
        None => None,
    }
}

fn text_of(j: &Json, key: &str) -> (r: Option<String>)
    ensures
        opt_view(r) == text_member(json_view(*j), key@),
{
    match member(j, key) {
        Some(Json::Str(s)) => Some(s.clone()),
        _ => None,
    }
}

fn optional_ok(j: &Json, key: &str) -> (r: bool)
    ensures
        r == optional_text_ok(json_view(*j), key@),
{
    match member(j, key) {
        None => true,
        Some(Json::Null) => true,
        Some(Json::Str(_)) => true,
        _ => false,
    }
}

/// Reads the post of one timeline entry.
fn post_from_json(e: &Json) -> (r: Option<BlueskyPost>)
    ensures
        r is Some <==> post_of(json_view(*e)) is Some,
        r is Some ==> post_view(r->0) == post_of(json_view(*e))->0,
{
    let p = match member(e, "post") {
        Some(p) => p,
        None => return None,
    };
    let a = match member(p, "author") {
        Some(a) => a,
        None => return None,
    };
    let rec = match member(p, "record") {
        Some(r) => r,
        None => return None,
    };
    let uri = text_of(p, "uri");
    let cid = text_of(p, "cid");
    let indexed = text_of(p, "indexedAt");
    let did = text_of(a, "did");
    let handle = text_of(a, "handle");
    if uri.is_none() || cid.is_none() || indexed.is_none() || did.is_none() || handle.is_none()
        || !optional_ok(a, "displayName") {
        return None;
    }
    let is_repost = match member(e, "reason") {
        None => false,
        Some(Json::Null) => false,
        Some(_) => true,
    };
    Some(
        BlueskyPost {
            uri: uri.unwrap(),
            handle: handle.unwrap(),
            text: text_of(rec, "text"),
            created_at: text_of(rec, "createdAt"),
            is_repost,
        },
    )
}

/// Reads the entries of an author-feed response, in timeline order; a parse error when
/// the body is no JSON or does not have the shape of such a response.
pub fn posts_from_json(body: &str) -> (r: Result<Vec<BlueskyPost>, PaiError>)
    ensures
        r is Ok <==> timeline_in(body@) is Some,
        r is Ok ==> post_views(r->Ok_0@) == timeline_in(body@)->0,
        r is Err ==> r->Err_0 is Parse,
{
    let doc = match parse_json(body) {
        Some(d) => d,
        None => return Err(PaiError::Parse(owned("Failed to parse Bluesky response: not JSON"))),
    };
    let bad = "Failed to parse Bluesky response: unexpected shape";
    if !optional_ok(&doc, "cursor") {
        return Err(PaiError::Parse(owned(bad)));
    }
    let feed = match member(&doc, "feed") {
        Some(f) => f,
        None => return Err(PaiError::Parse(owned(bad))),
    };
    let entries = match feed {
        Json::Array(es) => es,
        _ => return Err(PaiError::Parse(owned(bad))),
    };
    let ghost evs = match json_view(*feed) {
        JsonView::Array(x) => x,
        _ => Seq::empty(),
    };
    assert(evs.len() == entries@.len());
    assert(timeline_in(body@) == posts_of(evs));
    let mut out: Vec<BlueskyPost> = Vec::new();
    let mut i: usize = 0;
    assert(evs.take(0) =~= Seq::<JsonView>::empty());
    assert(post_views(out@) =~= Seq::<PostView>::empty());
    while i < entries.len()
        invariant
            i <= entries@.len(),
            evs.len() == entries@.len(),
            timeline_in(body@) == posts_of(evs),
            forall|k: int| 0 <= k < entries@.len() ==> #[trigger] evs[k] == json_view(entries@[k]),
            posts_of(evs.take(i as int)) == Some(post_views(out@)),
        decreases entries.len() - i,
    {
        assert(evs.take(i + 1).drop_last() =~= evs.take(i as int));
        match post_from_json(&entries[i]) {
            Some(p) => {
                let ghost before = out@;
                out.push(p);
                assert(post_views(out@) =~= post_views(before).push(post_view(p)));
            },
            None => {
                proof {
                    lemma_posts_of_prefix_fails(evs, i as int);
                }
                assert(evs.take(evs.len() as int) =~= evs);
                return Err(PaiError::Parse(owned(bad)));
            },
        }
        i += 1;
    }
    assert(evs.take(i as int) =~= evs);
    Ok(out)
}

/// Once an entry has no post, no longer prefix has posts either.
proof fn lemma_posts_of_prefix_fails(es: Seq<JsonView>, i: int)
    requires
        0 <= i < es.len(),
        post_of(es[i]) is None,
    ensures
        posts_of(es) is None,
    decreases es.len(),
{
    if i < es.len() - 1 {
        lemma_posts_of_prefix_fails(es.drop_last(), i);
    }
}

/// The public API URL of the author feed of `handle`, one page of 50 entries.
pub fn author_feed_url(handle: &str) -> (r: String)
    ensures
        r@ == "https://public.api.bsky.app/xrpc/app.bsky.feed.getAuthorFeed?actor="@ + handle@
            + "&limit=50"@,
{
    let a = joined("https://public.api.bsky.app/xrpc/app.bsky.feed.getAuthorFeed?actor=", handle);
    joined(a.as_str(), "&limit=50")
}

/// What ingesting an author-feed response gives: a fetch error for a status other than
/// 2xx and a parse error for a body that is no such response, neither writing anything;
/// otherwise the kept posts are written in order as items of `handle`, stopping at the
/// first failed write, which is a storage error.
pub open spec fn timeline_ingested(
    status: u16,
    body: Seq<char>,
    handle: Seq<char>,
    now: Seq<char>,
    before: Seq<ItemView>,
    after: Seq<ItemView>,
    infallible: bool,
    r: Result<usize, PaiError>,
) -> bool {
    if !is_success(status) {
        r matches Err(PaiError::Fetch(_)) && after == before
    } else if timeline_in(body) is None {
        r matches Err(PaiError::Parse(_)) && after == before
    } else {
        let tl = timeline_in(body)->0;
        &&& r is Ok ==> exists|ps: Seq<BlueskyPost>|
            post_views(ps) == tl && r->Ok_0 == post_items(ps, handle, now).len() && after
                == upsert_all(before, #[trigger] post_items(ps, handle, now))
        &&& r is Err ==> r->Err_0 is Storage && exists|ps: Seq<BlueskyPost>, k: int|
            post_views(ps) == tl && 0 <= k < post_items(ps, handle, now).len() && after
                == upsert_all(before, #[trigger] post_items(ps, handle, now).take(k))
        &&& infallible ==> r is Ok
    }
}

/// A 2xx HTTP status.
pub open spec fn is_success(status: u16) -> bool {
    200 <= status < 300
}

/// Fetches the 50 most recent entries of an account's timeline from the public API.
#[derive(Debug, Clone)]
pub struct BlueskyFetcher {
    pub config: BlueskyConfig,
}

impl BlueskyFetcher {
    pub fn new(config: BlueskyConfig) -> (r: BlueskyFetcher)
        ensures
            r.config == config,
    {
        BlueskyFetcher { config }
    }

    /// The URL of the account's author feed, one page of 50 entries.
    pub fn feed_url(&self) -> (r: String)
        ensures
            r@ == "https://public.api.bsky.app/xrpc/app.bsky.feed.getAuthorFeed?actor="@
                + self.config.handle@ + "&limit=50"@,
    {
        author_feed_url(self.config.handle.as_str())
    }

    /// Converts an AT URI to the post's web URL.
    pub fn at_uri_to_url(uri: &str, handle: &str) -> (r: Result<String, PaiError>)
        ensures
            at_uri_valid(uri@) ==> r is Ok && r->Ok_0@ == post_page(handle@, after_last(uri@, '/')),
            !at_uri_valid(uri@) ==> r matches Err(PaiError::Parse(_)),
    {
        at_uri_to_url(uri, handle)
    }

    /// A title of at most 100 characters from a post's text.
    pub fn create_title(text: &str) -> (r: String)
        ensures
            r@ == title_of(text@),
    {
        create_title(text)
    }

    /// Writes the account's own posts from a fetched author-feed response with HTTP
    /// status `status`. A status other than 2xx is a fetch error, and a body that is no
    /// such response a parse error; neither writes anything.
    pub fn ingest<S: Storage>(&self, status: u16, body: &str, now: &str, storage: &mut S) -> (r:
        Result<usize, PaiError>)
        ensures
            timeline_ingested(
                status,
                body@,
                self.config.handle@,
                now@,
                old(storage).rows(),
                final(storage).rows(),
                old(storage).infallible(),
                r,
            ),
            final(storage).infallible() == old(storage).infallible(),
    {
        if !(200 <= status && status < 300) {
            return Err(PaiError::Fetch(owned("Bluesky API error: non-success status")));
        }
        let posts = posts_from_json(body)?;
        let r = ingest_posts(&posts, self.config.handle.as_str(), now, storage);
        proof {
            if r is Err {
                let k = choose|k: int|
                    0 <= k < post_items(posts@, self.config.handle@, now@).len() && storage.rows()
                        == upsert_all(old(storage).rows(), post_items(posts@, self.config.handle@, now@).take(k));
                assert(post_views(posts@) == timeline_in(body@)->0);
            }
        }
        r
    }
}

/// A text of at most 100 characters is its own title; a longer one gives its first 97
/// characters and three dots, exactly 100 characters.
pub proof fn lemma_title_boundary(text: Seq<char>)
    ensures
        text.len() <= 100 ==> title_of(text) == text,
        text.len() > 100 ==> title_of(text).len() == 100 && title_of(text).take(97) == text.take(97)
            && title_of(text).subrange(97, 100) == seq!['.', '.', '.'],
{
    if text.len() > 100 {
        let t = title_of(text);
        assert(t.take(97) =~= text.take(97));
        assert(t.subrange(97, 100) =~= seq!['.', '.', '.']);
    }
}


proof fn lemma_post_items_tagged(ps: Seq<BlueskyPost>, handle: Seq<char>, now: Seq<char>)
    ensures
        tagged(post_items(ps, handle, now), SourceKind::Bluesky, handle),
    decreases ps.len(),
{
    if ps.len() > 0 {
        lemma_post_items_tagged(ps.drop_last(), handle, now);
    }
}

/// A timeline ingest only adds or replaces rows of the account's handle.
pub proof fn lemma_timeline_ingest_written(
    status: u16,
    body: Seq<char>,
    handle: Seq<char>,
    now: Seq<char>,
    before: Seq<ItemView>,
    after: Seq<ItemView>,
    infallible: bool,
    r: Result<usize, PaiError>,
)
    requires
        timeline_ingested(status, body, handle, now, before, after, infallible, r),
    ensures
        written_as(before, after, SourceKind::Bluesky, handle),
{
    if !is_success(status) || timeline_in(body) is None {
        assert forall|i: int| 0 <= i < after.len() implies before.contains(#[trigger] after[i]) by {
        }
    } else {
        let tl = timeline_in(body)->0;
        if r is Ok {
            let ps = choose|ps: Seq<BlueskyPost>|
                post_views(ps) == tl && r->Ok_0 == post_items(ps, handle, now).len() && after
                    == upsert_all(before, #[trigger] post_items(ps, handle, now));
            lemma_post_items_tagged(ps, handle, now);
            lemma_upsert_all_written(before, post_items(ps, handle, now), SourceKind::Bluesky, handle);
        } else {
            let (ps, k) = choose|ps: Seq<BlueskyPost>, k: int|
                post_views(ps) == tl && 0 <= k < post_items(ps, handle, now).len() && after
                    == upsert_all(before, #[trigger] post_items(ps, handle, now).take(k));
            lemma_post_items_tagged(ps, handle, now);
            lemma_tagged_take(post_items(ps, handle, now), k, SourceKind::Bluesky, handle);
            lemma_upsert_all_written(
                before,
                post_items(ps, handle, now).take(k),
                SourceKind::Bluesky,
                handle,
            );
        }
    }
}

} // verus!
