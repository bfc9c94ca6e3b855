//! A store of items held in memory, with the semantics every storage backend must have.
use vstd::prelude::*;
use vstd::seq_lib::*;
use crate::error::PaiError;
use crate::kind::SourceKind;
use crate::item::{
    item_matches, matching, newest_first, ordered_matches, first_with_key, has_key, same_key,
    upserted, views, Item, ItemView, ListFilter, Storage, keys_unique,
};
use crate::text::{
    chars_eq, chars_of, contains_ignore_case_chars, lemma_lex_le_transitive, lemma_lex_total,
    lex_le, lex_lt, lex_lt_chars,
};

verus! {

broadcast use vstd::string::group_string_axioms;

/// Whether `x` satisfies every constraint that `f` sets.
pub fn matches_filter(x: &Item, f: &ListFilter) -> (r: bool)
    ensures
        r == item_matches(f@, x@),
{
    if let Some(k) = f.source_kind {
        if x.source_kind != k {
            return false;
        }
    }
    if let Some(sid) = &f.source_id {
        if !chars_eq(&chars_of(x.source_id.as_str()), &chars_of(sid.as_str())) {
            return false;
        }
    }
    if let Some(since) = &f.since {
        let a = chars_of(since.as_str());
        let b = chars_of(x.published_at.as_str());
        if !(chars_eq(&a, &b) || lex_lt_chars(&a, &b)) {
            return false;
        }
    }
    if let Some(q) = &f.query {
        let qc = chars_of(q.as_str());
        let in_title = match &x.title {
            Some(t) => contains_ignore_case_chars(&chars_of(t.as_str()), &qc),
            None => false,
        };
        let in_summary = match &x.summary {
            Some(t) => contains_ignore_case_chars(&chars_of(t.as_str()), &qc),
            None => false,
        };
        if !(in_title || in_summary) {
            return false;
        }
    }
    true
}

pub proof fn lemma_insert_to_multiset<A>(s: Seq<A>, p: int, x: A)
    requires
        0 <= p <= s.len(),
    ensures
        s.insert(p, x).to_multiset() =~= s.to_multiset().insert(x),
{
    let t = s.insert(p, x);
    assert(t.remove(p) =~= s);
    t.to_multiset_ensures();
    assert(t[p] == x);
    assert(t.to_multiset().count(x) > 0);
}

/// The items of `items`, reordered most recently published first.
pub fn sort_newest_first(items: &Vec<Item>) -> (r: Vec<Item>)
    ensures
        views(r@).to_multiset() == views(items@).to_multiset(),
        newest_first(views(r@)),
{
    let mut out: Vec<Item> = Vec::new();
    let mut i: usize = 0;
    assert(views(items@.take(0)) =~= views(out@));
    while i < items.len()
        invariant
            i <= items.len(),
            views(out@).to_multiset() == views(items@.take(i as int)).to_multiset(),
            newest_first(views(out@)),
        decreases items.len() - i,
    {
        let x = items[i].duplicate();
        let xc = chars_of(x.published_at.as_str());
        let mut p: usize = 0;
        while p < out.len() && !lex_lt_chars(&chars_of(out[p].published_at.as_str()), &xc)
            invariant
                p <= out.len(),
                xc@ == x@.published_at,
                forall|k: int| 0 <= k < p ==> !lex_lt(#[trigger] out@[k]@.published_at, x@.published_at),
            decreases out.len() - p,
        {
            p += 1;
        }
        let ghost ov = views(out@);
        let ghost nv = ov.insert(p as int, x@);
        proof {
            assert forall|a: int, b: int| 0 <= a < b < nv.len() implies lex_le(
                #[trigger] nv[b].published_at,
                #[trigger] nv[a].published_at,
            ) by {
                ov.insert_ensures(p as int, x@);
                if b < p {
                } else if a > p {
                    assert(nv[a] == ov[a - 1] && nv[b] == ov[b - 1]);
                } else if a == p {
                    // ov[p] is older than x, and ov[b - 1] is no newer than ov[p].
                    assert(lex_lt(ov[p as int].published_at, x@.published_at));
                    if b - 1 > p {
                        lemma_lex_le_transitive(
                            ov[b - 1].published_at,
                            ov[p as int].published_at,
                            x@.published_at,
                        );
                    }
                } else if b == p {
                    lemma_lex_total(x@.published_at, ov[a].published_at);
                } else {
                    assert(nv[a] == ov[a] && nv[b] == ov[b - 1]);
                }
            }
            lemma_insert_to_multiset(ov, p as int, x@);
            assert(items@.take(i + 1) =~= items@.take(i as int).push(items@[i as int]));
            assert(views(items@.take(i + 1)) =~= views(items@.take(i as int)).push(x@));
            views(items@.take(i as int)).to_multiset_ensures();
        }
        out.insert(p, x);
        assert(views(out@) =~= nv);
        i += 1;
    }
    assert(items@.take(i as int) =~= items@);
    out
}

/// The first `n` items of `v`.
pub fn take_items(v: &Vec<Item>, n: usize) -> (r: Vec<Item>)
    requires
        n <= v@.len(),
    ensures
        views(r@) == views(v@).take(n as int),
{
    let mut out: Vec<Item> = Vec::new();
    let mut i: usize = 0;
    while i < n
        invariant
            i <= n <= v@.len(),
            views(out@) =~= views(v@).take(i as int),
        decreases n - i,
    {
        let y = v[i].duplicate();
        let ghost before = out@;
        out.push(y);
        assert(views(out@) =~= views(before).push(y@));
        assert(views(v@).take(i + 1) =~= views(v@).take(i as int).push(v@[i as int]@));
        i += 1;
    }
    out
}

/// Items held in memory, in the order they were first written.
pub struct MemoryStorage {
    items: Vec<Item>,
}

impl MemoryStorage {
    /// An empty store.
    pub fn new() -> (r: MemoryStorage)
        ensures
            r.rows() == Seq::<ItemView>::empty(),
            keys_unique(r.rows()),
            r.infallible(),
    {
        let r = MemoryStorage { items: Vec::new() };
        assert(views(r.items@) =~= Seq::<ItemView>::empty());
        r
    }

    /// How many rows the store holds.
    pub fn count_items(&self) -> (r: usize)
        ensures
            r == self.rows().len(),
    {
        self.items.len()
    }
}

impl Storage for MemoryStorage {
    closed spec fn rows(&self) -> Seq<ItemView> {
        views(self.items@)
    }

    open spec fn infallible(&self) -> bool {
        true
    }

    fn insert_or_replace_item(&mut self, item: &Item) -> (r: Result<(), PaiError>)
        ensures
            r is Ok,
            keys_unique(old(self).rows()) ==> keys_unique(final(self).rows()),
    {
        proof {
            if keys_unique(old(self).rows()) {
                crate::item::lemma_upserted_shape(old(self).rows(), item@);
            }
        }
        let ghost rows = views(self.items@);
        let mut i: usize = 0;
        while i < self.items.len()
            invariant
                rows == views(self.items@),
                rows == old(self).rows(),
                i <= self.items.len(),
                forall|j: int| 0 <= j < i ==> !same_key(#[trigger] rows[j], item@),
            decreases self.items.len() - i,
        {
            if self.items[i].source_kind == item.source_kind && chars_eq(
                &chars_of(self.items[i].id.as_str()),
                &chars_of(item.id.as_str()),
            ) {
                proof {
                    assert(first_with_key(rows, item@, i as int));
                    assert(has_key(rows, item@));
                    let k = choose|k: int| first_with_key(rows, item@, k);
                    assert(k == i) by {
                        if k < i {
                        } else if k > i {
                            assert(same_key(rows[i as int], item@));
                        }
                    }
                }
                let y = item.duplicate();
                let ghost before = self.items@;
                self.items.set(i, y);
                assert(self.items@ == before.update(i as int, y));
                assert(views(self.items@) =~= rows.update(i as int, item@));
                assert(self.rows() == upserted(rows, item@));
                return Ok(());
            }
            i += 1;
        }
        assert(!has_key(rows, item@));
        self.items.push(item.duplicate());
        assert(views(self.items@) =~= upserted(rows, item@));
        Ok(())
    }

    fn list_items(&self, filter: &ListFilter) -> (r: Result<Vec<Item>, PaiError>)
        ensures
            r is Ok,
    {
        let ghost rows = views(self.items@);
        let mut picked: Vec<Item> = Vec::new();
        let mut i: usize = 0;
        while i < self.items.len()
            invariant
                rows == views(self.items@),
                i <= self.items.len(),
                views(picked@) == matching(rows.take(i as int), filter@),
            decreases self.items.len() - i,
        {
            proof {
                assert(rows.take(i + 1).drop_last() =~= rows.take(i as int));
            }
            if matches_filter(&self.items[i], filter) {
                picked.push(self.items[i].duplicate());
                assert(views(picked@) =~= matching(rows.take(i + 1), filter@));
            }
            i += 1;
        }
        assert(rows.take(i as int) =~= rows);
        let sorted = sort_newest_first(&picked);
        let n = sorted.len();
        let cap = match filter.limit {
            Some(k) => if k < n {
                k
            } else {
                n
            },
            None => n,
        };
        let out = take_items(&sorted, cap);
        proof {
            let s = views(sorted@);
            views(picked@).to_multiset_ensures();
            s.to_multiset_ensures();
            assert(ordered_matches(rows, filter@, s));
        }
        Ok(out)
    }
}

/// Number of rows of kind `k`.
pub open spec fn kind_count(rows: Seq<ItemView>, k: SourceKind) -> nat
    decreases rows.len(),
{
    if rows.len() == 0 {
        0
    } else {
        kind_count(rows.drop_last(), k) + if rows.last().source_kind == k {
            1nat
        } else {
            0nat
        }
    }
}

/// `(name, count)` of kind `k` when some row has it.
pub open spec fn stat_of(rows: Seq<ItemView>, k: SourceKind) -> Seq<(Seq<char>, nat)> {
    if kind_count(rows, k) > 0 {
        seq![(k.name(), kind_count(rows, k))]
    } else {
        Seq::empty()
    }
}

/// Row counts per kind, for the kinds that occur, in order of kind name.
pub open spec fn stats_of(rows: Seq<ItemView>) -> Seq<(Seq<char>, nat)> {
    stat_of(rows, SourceKind::BearBlog) + stat_of(rows, SourceKind::Bluesky) + stat_of(
        rows,
        SourceKind::Leaflet,
    ) + stat_of(rows, SourceKind::Substack)
}

pub open spec fn stats_view(v: Seq<(String, usize)>) -> Seq<(Seq<char>, nat)> {
    v.map_values(|p: (String, usize)| stat_pair(p))
}

pub open spec fn stat_pair(p: (String, usize)) -> (Seq<char>, nat) {
    (p.0@, p.1 as nat)
}

impl MemoryStorage {
    fn count_kind(&self, k: SourceKind) -> (r: usize)
        ensures
            r == kind_count(self.rows(), k),
    {
        let ghost rows = self.rows();
        let mut n: usize = 0;
        let mut i: usize = 0;
        assert(rows.take(0) =~= Seq::<ItemView>::empty());
        while i < self.items.len()
            invariant
                rows == self.rows(),
                rows == views(self.items@),
                i <= self.items@.len(),
                n <= i,
                n == kind_count(rows.take(i as int), k),
            decreases self.items.len() - i,
        {
            assert(rows.take(i + 1).drop_last() =~= rows.take(i as int));
            if self.items[i].source_kind == k {
                n += 1;
            }
            i += 1;
        }
        assert(rows.take(i as int) =~= rows);
        n
    }

    /// How many rows there are of each kind that occurs, in order of kind name.
    pub fn get_stats(&self) -> (r: Vec<(String, usize)>)
        ensures
            stats_view(r@) == stats_of(self.rows()),
    {
        let kinds = [SourceKind::BearBlog, SourceKind::Bluesky, SourceKind::Leaflet, SourceKind::Substack];
        let mut out: Vec<(String, usize)> = Vec::new();
        let ghost rows = self.rows();
        let ghost parts: Seq<Seq<(Seq<char>, nat)>> = seq![
            stat_of(rows, SourceKind::BearBlog),
            stat_of(rows, SourceKind::Bluesky),
            stat_of(rows, SourceKind::Leaflet),
            stat_of(rows, SourceKind::Substack),
        ];
        let mut i: usize = 0;
        assert(stats_view(out@) =~= Seq::<(Seq<char>, nat)>::empty());
        while i < 4
            invariant
                i <= 4,
                rows == self.rows(),
                kinds@ == seq![SourceKind::BearBlog, SourceKind::Bluesky, SourceKind::Leaflet, SourceKind::Substack],
                parts == seq![
                    stat_of(rows, SourceKind::BearBlog),
                    stat_of(rows, SourceKind::Bluesky),
                    stat_of(rows, SourceKind::Leaflet),
                    stat_of(rows, SourceKind::Substack),
                ],
                stats_view(out@) == (if i == 0 {
                    Seq::empty()
                } else if i == 1 {
                    parts[0]
                } else if i == 2 {
                    parts[0] + parts[1]
                } else if i == 3 {
                    parts[0] + parts[1] + parts[2]
                } else {
                    parts[0] + parts[1] + parts[2] + parts[3]
                }),
            decreases 4 - i,
        {
            let k = kinds[i];
            let n = self.count_kind(k);
            if n > 0 {
                let ghost before = out@;
                out.push((k.to_string(), n));
                assert(stats_view(out@) =~= stats_view(before).push((k.name(), n as nat)));
            }
            proof {
                if i == 0 {
                    assert(stats_view(out@) =~= parts[0]);
                } else if i == 1 {
                    assert(stats_view(out@) =~= parts[0] + parts[1]);
                } else if i == 2 {
                    assert(stats_view(out@) =~= parts[0] + parts[1] + parts[2]);
                } else {
                    assert(stats_view(out@) =~= parts[0] + parts[1] + parts[2] + parts[3]);
                }
            }
            i += 1;
        }
        out
    }

    /// The first row with id `id`, if any.
    pub fn get_item(&self, id: &str) -> (r: Option<Item>)
        ensures
            r is Some ==> exists|i: int|
                0 <= i < self.rows().len() && self.rows()[i] == r->0@ && self.rows()[i].id == id@ && forall|j: int|
                    0 <= j < i ==> (#[trigger] self.rows()[j]).id != id@,
            r is None ==> forall|i: int| 0 <= i < self.rows().len() ==> (#[trigger] self.rows()[i]).id != id@,
    {
        let ic = chars_of(id);
        let mut i: usize = 0;
        while i < self.items.len()
            invariant
                i <= self.items@.len(),
                ic@ == id@,
                forall|j: int| 0 <= j < i ==> (#[trigger] self.rows()[j]).id != id@,
            decreases self.items.len() - i,
        {
            if chars_eq(&chars_of(self.items[i].id.as_str()), &ic) {
                let x = self.items[i].duplicate();
                assert(self.rows()[i as int] == x@);
                return Some(x);
            }
            i += 1;
        }
        None
    }
}

} // verus!
