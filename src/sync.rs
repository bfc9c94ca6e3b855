//! Choosing which configured sources to sync, and syncing them in order.
use vstd::prelude::*;
use crate::bluesky::{author_feed_url, timeline_ingested, BlueskyFetcher};
use crate::config::{
    BearBlogConfig, BlueskyConfig, Config, LeafletConfig, SourcesConfig, SubstackConfig,
};
use crate::error::PaiError;
use crate::feeds::{
    bearblog_feed_path, bearblog_feed_url, feed_ingested, ingest_feed, leaflet_feed_path, leaflet_feed_url,
    normalize_source_id, normalized_source_id, substack_feed_path, substack_feed_url,
    BearBlogFetcher, LeafletFetcher, SubstackFetcher,
};
use crate::dates::current_time;
use crate::item::{written_as, ItemView, Storage};
use crate::kind::SourceKind;
use crate::text::{chars_eq, chars_of, strip_trailing};

verus! {

broadcast use vstd::string::group_string_axioms;

/// One source instance to fetch: its kind, the source id its items get, and the URL.
#[derive(Debug, Clone)]
pub struct SyncTarget {
    pub kind: SourceKind,
    pub source_id: String,
    pub url: String,
}

/// A sync target as mathematical values.
pub ghost struct TargetView {
    pub kind: SourceKind,
    pub source_id: Seq<char>,
    pub url: Seq<char>,
}

impl View for SyncTarget {
    type V = TargetView;

    open spec fn view(&self) -> TargetView {
        TargetView { kind: self.kind, source_id: self.source_id@, url: self.url@ }
    }
}

pub open spec fn target_views(v: Seq<SyncTarget>) -> Seq<TargetView> {
    v.map_values(|t: SyncTarget| t@)
}

/// An HTTP response: its status and its body.
#[derive(Debug, Clone)]
pub struct HttpResponse {
    pub status: u16,
    pub body: String,
}

/// The instance is enabled and passes the kind and source-id filters.
pub open spec fn wanted(
    enabled: bool,
    k: SourceKind,
    id: Seq<char>,
    kind: Option<SourceKind>,
    source_id: Option<Seq<char>>,
) -> bool {
    enabled && (kind is Some ==> kind->0 == k) && (source_id is Some ==> id == source_id->0)
}

pub open spec fn opt_str_view(o: Option<&str>) -> Option<Seq<char>> {
    match o {
        Some(s) => Some(s@),
        None => None,
    }
}

pub open spec fn substack_target(c: SubstackConfig) -> TargetView {
    TargetView {
        kind: SourceKind::Substack,
        source_id: normalized_source_id(c.base_url@),
        url: c.base_url@ + substack_feed_path(),
    }
}

pub open spec fn bluesky_target(c: BlueskyConfig) -> TargetView {
    TargetView {
        kind: SourceKind::Bluesky,
        source_id: c.handle@,
        url: "https://public.api.bsky.app/xrpc/app.bsky.feed.getAuthorFeed?actor="@ + c.handle@
            + "&limit=50"@,
    }
}

pub open spec fn leaflet_target(c: LeafletConfig) -> TargetView {
    TargetView {
        kind: SourceKind::Leaflet,
        source_id: c.id@,
        url: strip_trailing(c.base_url@, '/') + leaflet_feed_path(),
    }
}

pub open spec fn bearblog_target(c: BearBlogConfig) -> TargetView {
    TargetView {
        kind: SourceKind::BearBlog,
        source_id: c.id@,
        url: strip_trailing(c.base_url@, '/') + bearblog_feed_path(),
    }
}

pub open spec fn leaflet_targets(
    ls: Seq<LeafletConfig>,
    kind: Option<SourceKind>,
    source_id: Option<Seq<char>>,
) -> Seq<TargetView>
    decreases ls.len(),
{
    if ls.len() == 0 {
        Seq::empty()
    } else {
        let before = leaflet_targets(ls.drop_last(), kind, source_id);
        if wanted(ls.last().enabled, SourceKind::Leaflet, ls.last().id@, kind, source_id) {
            before.push(leaflet_target(ls.last()))
        } else {
            before
        }
    }
}

pub open spec fn bearblog_targets(
    ls: Seq<BearBlogConfig>,
    kind: Option<SourceKind>,
    source_id: Option<Seq<char>>,
) -> Seq<TargetView>
    decreases ls.len(),
{
    if ls.len() == 0 {
        Seq::empty()
    } else {
        let before = bearblog_targets(ls.drop_last(), kind, source_id);
        if wanted(ls.last().enabled, SourceKind::BearBlog, ls.last().id@, kind, source_id) {
            before.push(bearblog_target(ls.last()))
        } else {
            before
        }
    }
}

/// The instances to sync, in configuration order: Substack, Bluesky, then each Leaflet
/// and each BearBlog publication; each enabled and passing both filters. A Substack
/// publication is matched by its normalized base URL, the others by handle or id.
pub open spec fn planned(
    s: SourcesConfig,
    kind: Option<SourceKind>,
    source_id: Option<Seq<char>>,
) -> Seq<TargetView> {
    let a = match s.substack {
        Some(c) => if wanted(
            c.enabled,
            SourceKind::Substack,
            normalized_source_id(c.base_url@),
            kind,
            source_id,
        ) {
            seq![substack_target(c)]
        } else {
            Seq::empty()
        },
        None => Seq::empty(),
    };
    let b = match s.bluesky {
        Some(c) => if wanted(c.enabled, SourceKind::Bluesky, c.handle@, kind, source_id) {
            seq![bluesky_target(c)]
        } else {
            Seq::empty()
        },
        None => Seq::empty(),
    };
    a + b + leaflet_targets(s.leaflet@, kind, source_id) + bearblog_targets(
        s.bearblog@,
        kind,
        source_id,
    )
}

fn wanted_exec(
    enabled: bool,
    k: SourceKind,
    id: &str,
    kind: Option<SourceKind>,
    source_id: Option<&str>,
) -> (r: bool)
    ensures
        r == wanted(enabled, k, id@, kind, opt_str_view(source_id)),
{
    if !enabled {
        return false;
    }
    if let Some(want) = kind {
        if want != k {
            return false;
        }
    }
    match source_id {
        Some(sid) => chars_eq(&chars_of(id), &chars_of(sid)),
        None => true,
    }
}

/// The source instances to sync, in configuration order, that are enabled and pass the
/// optional kind and source-id filters.
pub fn sync_plan(config: &Config, kind: Option<SourceKind>, source_id: Option<&str>) -> (r: Vec<
    SyncTarget,
>)
    ensures
        target_views(r@) == planned(config.sources, kind, opt_str_view(source_id)),
{
    let ghost sid = opt_str_view(source_id);
    let ghost s = config.sources;
    let mut out: Vec<SyncTarget> = Vec::new();
    if let Some(c) = &config.sources.substack {
        let id = normalize_source_id(c.base_url.as_str());
        if wanted_exec(c.enabled, SourceKind::Substack, id.as_str(), kind, source_id) {
            let url = substack_feed_url(c.base_url.as_str());
            let t = SyncTarget { kind: SourceKind::Substack, source_id: id, url };
            assert(t@ == substack_target(*c));
            out.push(t);
        }
    }
    if let Some(c) = &config.sources.bluesky {
        if wanted_exec(c.enabled, SourceKind::Bluesky, c.handle.as_str(), kind, source_id) {
            let url = author_feed_url(c.handle.as_str());
            let t = SyncTarget { kind: SourceKind::Bluesky, source_id: c.handle.clone(), url };
            let ghost before = out@;
            out.push(t);
            assert(target_views(out@) =~= target_views(before).push(bluesky_target(*c)));
        }
    }
    let ghost head = target_views(out@);
    assert(target_views(out@) =~= head + leaflet_targets(s.leaflet@.take(0), kind, sid));
    let mut i: usize = 0;
    while i < config.sources.leaflet.len()
        invariant
            s == config.sources,
            sid == opt_str_view(source_id),
            i <= s.leaflet@.len(),
            target_views(out@) =~= head + leaflet_targets(s.leaflet@.take(i as int), kind, sid),
        decreases config.sources.leaflet.len() - i,
    {
        let c = &config.sources.leaflet[i];
        assert(s.leaflet@.take(i + 1).drop_last() =~= s.leaflet@.take(i as int));
        if wanted_exec(c.enabled, SourceKind::Leaflet, c.id.as_str(), kind, source_id) {
            let url = leaflet_feed_url(c.base_url.as_str());
            let t = SyncTarget { kind: SourceKind::Leaflet, source_id: c.id.clone(), url };
            let ghost before = out@;
            out.push(t);
            assert(target_views(out@) =~= target_views(before).push(leaflet_target(*c)));
        }
        i += 1;
    }
    assert(s.leaflet@.take(i as int) =~= s.leaflet@);
    let ghost head2 = target_views(out@);
    assert(target_views(out@) =~= head2 + bearblog_targets(s.bearblog@.take(0), kind, sid));
    let mut j: usize = 0;
    while j < config.sources.bearblog.len()
        invariant
            s == config.sources,
            sid == opt_str_view(source_id),
            j <= s.bearblog@.len(),
            target_views(out@) =~= head2 + bearblog_targets(s.bearblog@.take(j as int), kind, sid),
        decreases config.sources.bearblog.len() - j,
    {
        let c = &config.sources.bearblog[j];
        assert(s.bearblog@.take(j + 1).drop_last() =~= s.bearblog@.take(j as int));
        if wanted_exec(c.enabled, SourceKind::BearBlog, c.id.as_str(), kind, source_id) {
            let url = bearblog_feed_url(c.base_url.as_str());
            let t = SyncTarget { kind: SourceKind::BearBlog, source_id: c.id.clone(), url };
            let ghost before = out@;
            out.push(t);
            assert(target_views(out@) =~= target_views(before).push(bearblog_target(*c)));
        }
        j += 1;
    }
    assert(s.bearblog@.take(j as int) =~= s.bearblog@);
    assert(target_views(out@) =~= planned(s, kind, sid));
    out
}

/// What syncing `target` with a fetched response gives: for Bluesky, the response read as
/// an author feed; for the other kinds, its body read as a feed document.
pub open spec fn target_synced(
    target: TargetView,
    status: u16,
    body: Seq<char>,
    now: Seq<char>,
    before: Seq<ItemView>,
    after: Seq<ItemView>,
    infallible: bool,
    r: Result<usize, PaiError>,
) -> bool {
    if target.kind == SourceKind::Bluesky {
        timeline_ingested(status, body, target.source_id, now, before, after, infallible, r)
    } else {
        feed_ingested(body, target.kind, target.source_id, now, before, after, infallible, r)
    }
}

/// Writes what was fetched for `target`: a feed document for the feed kinds, an
/// author-feed response (whose status must be 2xx) for Bluesky.
pub fn sync_target<S: Storage>(
    target: &SyncTarget,
    response: &HttpResponse,
    now: &str,
    storage: &mut S,
) -> (r: Result<usize, PaiError>)
    ensures
        target_synced(
            target@,
            response.status,
            response.body@,
            now@,
            old(storage).rows(),
            final(storage).rows(),
            old(storage).infallible(),
            r,
        ),
        written_as(old(storage).rows(), final(storage).rows(), target.kind, target.source_id@),
        final(storage).infallible() == old(storage).infallible(),
{
    match target.kind {
        SourceKind::Bluesky => {
            let fetcher = BlueskyFetcher::new(
                BlueskyConfig { enabled: true, handle: target.source_id.clone() },
            );
            let r = fetcher.ingest(response.status, response.body.as_str(), now, storage);
            proof {
                crate::bluesky::lemma_timeline_ingest_written(
                    response.status,
                    response.body@,
                    target.source_id@,
                    now@,
                    old(storage).rows(),
                    storage.rows(),
                    old(storage).infallible(),
                    r,
                );
            }
            r
        },
        k => {
            let r = ingest_feed(k, target.source_id.as_str(), response.body.as_str(), now, storage);
            proof {
                crate::feeds::lemma_feed_ingest_written(
                    response.body@,
                    k,
                    target.source_id@,
                    now@,
                    old(storage).rows(),
                    storage.rows(),
                    old(storage).infallible(),
                    r,
                );
            }
            r
        },
    }
}

/// Every row of `after` was a row of `before`, or has the kind and source id of one of
/// the targets.
pub open spec fn written_by(before: Seq<ItemView>, after: Seq<ItemView>, ts: Seq<TargetView>) -> bool {
    forall|i: int|
        0 <= i < after.len() ==> before.contains(#[trigger] after[i]) || exists|j: int|
            0 <= j < ts.len() && ts[j].kind == after[i].source_kind && ts[j].source_id
                == after[i].source_id
}

/// Syncs every planned source instance in order and returns how many were synced; the
/// first failure, of the fetch or of the sync, ends the run and is returned. With nothing
/// planned the result is `Ok(0)`. Every row written has the kind and source id of a
/// planned instance.
pub fn sync_all_sources<S: Storage, F: Fn(&SyncTarget) -> Result<HttpResponse, PaiError>>(
    config: &Config,
    storage: &mut S,
    kind: Option<SourceKind>,
    source_id: Option<&str>,
    fetch: &F,
) -> (r: Result<usize, PaiError>)
    requires
        forall|t: &SyncTarget| fetch.requires((t,)),
    ensures
        r is Ok ==> r->Ok_0 == planned(config.sources, kind, opt_str_view(source_id)).len(),
        planned(config.sources, kind, opt_str_view(source_id)).len() == 0 ==> r == Ok::<
            usize,
            PaiError,
        >(0) && final(storage).rows() == old(storage).rows(),
        written_by(
            old(storage).rows(),
            final(storage).rows(),
            planned(config.sources, kind, opt_str_view(source_id)),
        ),
{
    let targets = sync_plan(config, kind, source_id);
    let ghost plan = target_views(targets@);
    if targets.len() == 0 {
        return Ok(0);
    }
    let now = current_time();
    let mut i: usize = 0;
    while i < targets.len()
        invariant
            i <= targets@.len(),
            plan == target_views(targets@),
            plan == planned(config.sources, kind, opt_str_view(source_id)),
            written_by(old(storage).rows(), storage.rows(), plan),
            forall|t: &SyncTarget| fetch.requires((t,)),
        decreases targets.len() - i,
    {
        let response = fetch(&targets[i])?;
        let ghost mid = storage.rows();
        let res = sync_target(&targets[i], &response, now.as_str(), storage);
        proof {
            assert(plan[i as int] == targets@[i as int]@);
            assert forall|a: int| 0 <= a < storage.rows().len() implies old(storage).rows().contains(
                #[trigger] storage.rows()[a],
            ) || exists|j: int|
                0 <= j < plan.len() && plan[j].kind == storage.rows()[a].source_kind
                    && plan[j].source_id == storage.rows()[a].source_id by {
                let x = storage.rows()[a];
                if !mid.contains(x) {
                    assert(x.source_kind == plan[i as int].kind && x.source_id == plan[i as int].source_id);
                } else {
                    let b = choose|b: int| 0 <= b < mid.len() && mid[b] == x;
                    assert(old(storage).rows().contains(mid[b]) || exists|j: int|
                        0 <= j < plan.len() && plan[j].kind == mid[b].source_kind && plan[j].source_id
                            == mid[b].source_id);
                }
            }
        }
        res?;
        i += 1;
    }
    Ok(targets.len())
}

/// The outcome of syncing one source instance.
#[derive(Debug)]
pub struct SourceOutcome {
    pub target: SyncTarget,
    /// How many items were written, or why the sync of this instance failed.
    pub result: Result<usize, PaiError>,
}

/// Syncs every planned source instance in order, going on past failures, and reports the
/// outcome of each, in plan order.
pub fn sync_each_source<S: Storage, F: Fn(&SyncTarget) -> Result<HttpResponse, PaiError>>(
    config: &Config,
    storage: &mut S,
    kind: Option<SourceKind>,
    source_id: Option<&str>,
    fetch: &F,
) -> (r: Vec<SourceOutcome>)
    requires
        forall|t: &SyncTarget| fetch.requires((t,)),
    ensures
        r@.len() == planned(config.sources, kind, opt_str_view(source_id)).len(),
        forall|i: int|
            0 <= i < r@.len() ==> (#[trigger] r@[i]).target@ == planned(
                config.sources,
                kind,
                opt_str_view(source_id),
            )[i],
        forall|i: int| 0 <= i < r@.len() ==> #[trigger] attempted(*fetch, r@[i]),
{
    let targets = sync_plan(config, kind, source_id);
    let now = current_time();
    let mut out: Vec<SourceOutcome> = Vec::new();
    let mut i: usize = 0;
    while i < targets.len()
        invariant
            i <= targets@.len(),
            out@.len() == i,
            target_views(targets@) == planned(config.sources, kind, opt_str_view(source_id)),
            forall|j: int| 0 <= j < i ==> (#[trigger] out@[j]).target@ == targets@[j]@,
            forall|j: int| 0 <= j < i ==> #[trigger] attempted(*fetch, out@[j]),
            forall|t: &SyncTarget| fetch.requires((t,)),
        decreases targets.len() - i,
    {
        let t = &targets[i];
        let copy = SyncTarget { kind: t.kind, source_id: t.source_id.clone(), url: t.url.clone() };
        let ghost before = storage.rows();
        let fetched = fetch(t);
        let result = match fetched {
            Ok(response) => {
                let res = sync_target(t, &response, now.as_str(), storage);
                assert(target_synced(
                    t@,
                    response.status,
                    response.body@,
                    now@,
                    before,
                    storage.rows(),
                    storage.infallible(),
                    res,
                ));
                res
            },
            Err(e) => Err(e),
        };
        let ghost prev = out@;
        out.push(SourceOutcome { target: copy, result });
        assert(out@[i as int] == SourceOutcome { target: copy, result });
        assert forall|j: int| 0 <= j < out@.len() implies #[trigger] attempted(*fetch, out@[j]) by {
            if j < i {
                assert(out@[j] == prev[j]);
            }
        }
        i += 1;
    }
    out
}

/// The outcome of one instance is what the fetch gave for its target: the fetch's own
/// error, or the result of syncing the response it returned.
pub open spec fn attempted<F: Fn(&SyncTarget) -> Result<HttpResponse, PaiError>>(
    fetch: F,
    o: SourceOutcome,
) -> bool {
    ||| exists|e: PaiError|
        o.result == Err::<usize, PaiError>(e) && fetch.ensures((&o.target,), Err::<HttpResponse, PaiError>(e))
    ||| exists|resp: HttpResponse, now: Seq<char>, before: Seq<ItemView>, after: Seq<ItemView>, inf: bool|
        fetch.ensures((&o.target,), Ok::<HttpResponse, PaiError>(resp)) && target_synced(
            o.target@,
            resp.status,
            resp.body@,
            now,
            before,
            after,
            inf,
            o.result,
        )
}

/// A configured source: where its documents are fetched from, and how a fetched
/// document becomes stored items.
pub trait SourceFetcher {
    /// The URL to fetch.
    fn request_url(&self) -> String;

    /// Writes the items of a fetched response. A response the source cannot read is a
    /// parse error, and then nothing is written.
    fn sync_response<S: Storage>(&self, response: &HttpResponse, now: &str, storage: &mut S) -> (r:
        Result<usize, PaiError>)
        ensures
            r matches Err(PaiError::Parse(_)) ==> final(storage).rows() == old(storage).rows(),
    ;
}

impl SourceFetcher for SubstackFetcher {
    fn request_url(&self) -> String {
        self.feed_url()
    }

    fn sync_response<S: Storage>(&self, response: &HttpResponse, now: &str, storage: &mut S) -> (r:
        Result<usize, PaiError>) {
        self.ingest(response.body.as_str(), now, storage)
    }
}

impl SourceFetcher for LeafletFetcher {
    fn request_url(&self) -> String {
        self.feed_url()
    }

    fn sync_response<S: Storage>(&self, response: &HttpResponse, now: &str, storage: &mut S) -> (r:
        Result<usize, PaiError>) {
        self.ingest(response.body.as_str(), now, storage)
    }
}

impl SourceFetcher for BearBlogFetcher {
    fn request_url(&self) -> String {
        self.feed_url()
    }

    fn sync_response<S: Storage>(&self, response: &HttpResponse, now: &str, storage: &mut S) -> (r:
        Result<usize, PaiError>) {
        self.ingest(response.body.as_str(), now, storage)
    }
}

impl SourceFetcher for BlueskyFetcher {
    fn request_url(&self) -> String {
        self.feed_url()
    }

    fn sync_response<S: Storage>(&self, response: &HttpResponse, now: &str, storage: &mut S) -> (r:
        Result<usize, PaiError>) {
        self.ingest(response.status, response.body.as_str(), now, storage)
    }
}

} // verus!
