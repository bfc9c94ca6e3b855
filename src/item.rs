//! The canonical item, the filter that queries select with, and the storage contract.
use vstd::prelude::*;
use crate::error::PaiError;
use crate::kind::SourceKind;
use crate::text::{contains_ignore_case, lex_le};

verus! {

broadcast use vstd::string::group_string_axioms;

/// One piece of content from any platform, in the one shape that all sources map into.
#[derive(Debug, Clone)]
pub struct Item {
    /// Identifier, unique within its source kind.
    pub id: String,
    /// The platform family the item came from.
    pub source_kind: SourceKind,
    /// The configured instance of that platform (a domain, a handle, a slug).
    pub source_id: String,
    pub author: Option<String>,
    pub title: Option<String>,
    pub summary: Option<String>,
    /// Link to the content.
    pub url: String,
    pub content_html: Option<String>,
    /// When the content was published (ISO 8601).
    pub published_at: String,
    /// When the record was written (ISO 8601).
    pub created_at: String,
}

/// The characters of an optional string.
pub open spec fn opt_view(o: Option<String>) -> Option<Seq<char>> {
    match o {
        Some(s) => Some(s@),
        None => None,
    }
}

/// An item as mathematical values.
pub ghost struct ItemView {
    pub id: Seq<char>,
    pub source_kind: SourceKind,
    pub source_id: Seq<char>,
    pub author: Option<Seq<char>>,
    pub title: Option<Seq<char>>,
    pub summary: Option<Seq<char>>,
    pub url: Seq<char>,
    pub content_html: Option<Seq<char>>,
    pub published_at: Seq<char>,
    pub created_at: Seq<char>,
}

impl View for Item {
    type V = ItemView;

    open spec fn view(&self) -> ItemView {
        ItemView {
            id: self.id@,
            source_kind: self.source_kind,
            source_id: self.source_id@,
            author: opt_view(self.author),
            title: opt_view(self.title),
            summary: opt_view(self.summary),
            url: self.url@,
            content_html: opt_view(self.content_html),
            published_at: self.published_at@,
            created_at: self.created_at@,
        }
    }
}

/// The views of a sequence of items.
pub open spec fn views(v: Seq<Item>) -> Seq<ItemView> {
    v.map_values(|x: Item| x@)
}

/// A copy of an optional string.
pub fn copy_opt(o: &Option<String>) -> (r: Option<String>)
    ensures
        opt_view(r) == opt_view(*o),
{
    match o {
        Some(s) => Some(s.clone()),
        None => None,
    }
}

impl Item {
    /// A copy of the item with the same field values.
    pub fn duplicate(&self) -> (r: Item)
        ensures
            r@ == self@,
    {
        Item {
            id: self.id.clone(),
            source_kind: self.source_kind,
            source_id: self.source_id.clone(),
            author: copy_opt(&self.author),
            title: copy_opt(&self.title),
            summary: copy_opt(&self.summary),
            url: self.url.clone(),
            content_html: copy_opt(&self.content_html),
            published_at: self.published_at.clone(),
            created_at: self.created_at.clone(),
        }
    }
}

/// What a listing selects: each present field narrows the result.
#[derive(Debug, Clone)]
pub struct ListFilter {
    pub source_kind: Option<SourceKind>,
    /// Exact source instance.
    pub source_id: Option<String>,
    /// At most this many items, counted after filtering and ordering.
    pub limit: Option<usize>,
    /// Only items published at or after this ISO 8601 time.
    pub since: Option<String>,
    /// Substring of the title or of the summary, ignoring ASCII letter case.
    pub query: Option<String>,
}

/// A filter as mathematical values.
pub ghost struct FilterView {
    pub source_kind: Option<SourceKind>,
    pub source_id: Option<Seq<char>>,
    pub limit: Option<usize>,
    pub since: Option<Seq<char>>,
    pub query: Option<Seq<char>>,
}

impl View for ListFilter {
    type V = FilterView;

    open spec fn view(&self) -> FilterView {
        FilterView {
            source_kind: self.source_kind,
            source_id: opt_view(self.source_id),
            limit: self.limit,
            since: opt_view(self.since),
            query: opt_view(self.query),
        }
    }
}

impl Default for ListFilter {
    fn default() -> (r: ListFilter)
        ensures
            r.source_kind is None,
            r.source_id is None,
            r.limit is None,
            r.since is None,
            r.query is None,
    {
        ListFilter { source_kind: None, source_id: None, limit: None, since: None, query: None }
    }
}

/// `t` is present and contains `q`, ignoring ASCII letter case.
pub open spec fn opt_contains(t: Option<Seq<char>>, q: Seq<char>) -> bool {
    t is Some && contains_ignore_case(t->0, q)
}

/// Item `x` satisfies every constraint that `f` sets.
pub open spec fn item_matches(f: FilterView, x: ItemView) -> bool {
    &&& f.source_kind is Some ==> x.source_kind == f.source_kind->0
    &&& f.source_id is Some ==> x.source_id == f.source_id->0
    &&& f.since is Some ==> lex_le(f.since->0, x.published_at)
    &&& f.query is Some ==> (opt_contains(x.title, f.query->0) || opt_contains(
        x.summary,
        f.query->0,
    ))
}

/// The rows that satisfy `f`, in storage order.
pub open spec fn matching(rows: Seq<ItemView>, f: FilterView) -> Seq<ItemView>
    decreases rows.len(),
{
    if rows.len() == 0 {
        Seq::empty()
    } else {
        let before = matching(rows.drop_last(), f);
        if item_matches(f, rows.last()) {
            before.push(rows.last())
        } else {
            before
        }
    }
}

/// Most recently published first.
pub open spec fn newest_first(s: Seq<ItemView>) -> bool {
    forall|i: int, j: int|
        0 <= i < j < s.len() ==> lex_le(#[trigger] s[j].published_at, #[trigger] s[i].published_at)
}

/// How many of `n` matching rows a listing with filter `f` returns.
pub open spec fn capped(f: FilterView, n: nat) -> nat {
    match f.limit {
        Some(k) => if (k as nat) < n {
            k as nat
        } else {
            n
        },
        None => n,
    }
}

/// `s` holds exactly the rows of `rows` that satisfy `f`, newest first.
pub open spec fn ordered_matches(rows: Seq<ItemView>, f: FilterView, s: Seq<ItemView>) -> bool {
    s.to_multiset() == matching(rows, f).to_multiset() && newest_first(s)
}

/// `out` is what listing `rows` with `f` returns: the first `capped` of the matching rows
/// ordered newest first (rows published at the same time may come in either order).
pub open spec fn is_listing(rows: Seq<ItemView>, f: FilterView, out: Seq<ItemView>) -> bool {
    exists|s: Seq<ItemView>|
        ordered_matches(rows, f, s) && out == s.take(capped(f, s.len()) as int)
}

/// Items `a` and `b` share the storage key.
pub open spec fn same_key(a: ItemView, b: ItemView) -> bool {
    a.source_kind == b.source_kind && a.id == b.id
}

/// No two rows share a key.
pub open spec fn keys_unique(rows: Seq<ItemView>) -> bool {
    forall|i: int, j: int|
        0 <= i < rows.len() && 0 <= j < rows.len() && i != j ==> !same_key(
            #[trigger] rows[i],
            #[trigger] rows[j],
        )
}

/// `i` is the first position of a row with the key of `x`.
pub open spec fn first_with_key(rows: Seq<ItemView>, x: ItemView, i: int) -> bool {
    &&& 0 <= i < rows.len()
    &&& same_key(rows[i], x)
    &&& forall|j: int| 0 <= j < i ==> !same_key(#[trigger] rows[j], x)
}

/// Some row has the key of `x`.
pub open spec fn has_key(rows: Seq<ItemView>, x: ItemView) -> bool {
    exists|i: int| 0 <= i < rows.len() && same_key(#[trigger] rows[i], x)
}

/// The rows after writing `x`: it replaces the row with its key, or is added at the end.
pub open spec fn upserted(rows: Seq<ItemView>, x: ItemView) -> Seq<ItemView> {
    if has_key(rows, x) {
        rows.update(choose|i: int| first_with_key(rows, x, i), x)
    } else {
        rows.push(x)
    }
}

/// A store of items, keyed by source kind and id.
pub trait Storage {
    /// The stored rows. Implementations verified in this crate define it. The default, no
    /// rows, only lets an implementation outside verification (a database) compile: for
    /// such an implementation the `Ok` clauses below cannot hold of the model, and nothing
    /// proved here speaks of it.
    open spec fn rows(&self) -> Seq<ItemView> {
        Seq::empty()
    }

    /// The store never reports a failure (a store held in memory).
    open spec fn infallible(&self) -> bool {
        false
    }

    /// Writes `item`, replacing the row with the same source kind and id if there is one.
    fn insert_or_replace_item(&mut self, item: &Item) -> (r: Result<(), PaiError>)
        ensures
            r is Ok ==> final(self).rows() == upserted(old(self).rows(), item@),
            r is Err ==> final(self).rows() == old(self).rows() && r->Err_0 is Storage,
            old(self).infallible() ==> r is Ok,
            final(self).infallible() == old(self).infallible(),
    ;

    /// The rows that satisfy `filter`, newest first, at most `limit` of them.
    fn list_items(&self, filter: &ListFilter) -> (r: Result<Vec<Item>, PaiError>)
        ensures
            r is Ok ==> is_listing(self.rows(), filter@, views(r->Ok_0@)),
            r is Err ==> r->Err_0 is Storage,
            self.infallible() ==> r is Ok,
    ;
}

/// The rows after writing each of `xs` in turn.
pub open spec fn upsert_all(rows: Seq<ItemView>, xs: Seq<ItemView>) -> Seq<ItemView>
    decreases xs.len(),
{
    if xs.len() == 0 {
        rows
    } else {
        upserted(upsert_all(rows, xs.drop_last()), xs.last())
    }
}

/// Writes each of `items` in order, stopping at the first write that fails.
pub fn store_items<S: Storage>(items: &Vec<Item>, storage: &mut S) -> (r: Result<usize, PaiError>)
    ensures
        r is Ok ==> r->Ok_0 == items@.len() && final(storage).rows() == upsert_all(
            old(storage).rows(),
            views(items@),
        ),
        r is Err ==> r->Err_0 is Storage && exists|k: int|
            0 <= k < items@.len() && final(storage).rows() == upsert_all(
                old(storage).rows(),
                views(items@).take(k),
            ),
        old(storage).infallible() ==> r is Ok,
        final(storage).infallible() == old(storage).infallible(),
{
    let ghost start = storage.rows();
    let mut i: usize = 0;
    assert(views(items@).take(0) =~= Seq::<ItemView>::empty());
    while i < items.len()
        invariant
            i <= items@.len(),
            start == old(storage).rows(),
            storage.rows() == upsert_all(start, views(items@).take(i as int)),
            storage.infallible() == old(storage).infallible(),
        decreases items.len() - i,
    {
        let res = storage.insert_or_replace_item(&items[i]);
        match res {
            Ok(()) => {},
            Err(e) => {
                return Err(e);
            },
        }
        proof {
            assert(views(items@).take(i + 1).drop_last() =~= views(items@).take(i as int));
        }
        i += 1;
    }
    assert(views(items@).take(i as int) =~= views(items@));
    Ok(items.len())
}

/// Writing `x` into rows with unique keys keeps the keys unique; afterwards the one row
/// with the key of `x` is `x`, every other row was there before, and the row count grows
/// by one exactly when no row had that key.
pub proof fn lemma_upserted_shape(rows: Seq<ItemView>, x: ItemView)
    requires
        keys_unique(rows),
    ensures
        keys_unique(upserted(rows, x)),
        has_key(upserted(rows, x), x),
        forall|i: int|
            0 <= i < upserted(rows, x).len() && same_key(#[trigger] upserted(rows, x)[i], x)
                ==> upserted(rows, x)[i] == x,
        forall|i: int|
            0 <= i < upserted(rows, x).len() && !same_key(#[trigger] upserted(rows, x)[i], x)
                ==> rows.contains(upserted(rows, x)[i]),
        upserted(rows, x).len() == rows.len() + if has_key(rows, x) {
            0int
        } else {
            1int
        },
{
    let u = upserted(rows, x);
    if has_key(rows, x) {
        let w = choose|i: int| 0 <= i < rows.len() && same_key(#[trigger] rows[i], x);
        assert(first_with_key(rows, x, w)) by {
            assert forall|j: int| 0 <= j < w implies !same_key(#[trigger] rows[j], x) by {
                if same_key(rows[j], x) {
                    assert(j != w && same_key(rows[j], rows[w]));
                }
            }
        }
        let k = choose|i: int| first_with_key(rows, x, i);
        assert(u[k] == x);
        assert forall|i: int| 0 <= i < u.len() && same_key(#[trigger] u[i], x) implies u[i] == x by {
            if i != k {
                assert(same_key(rows[i], rows[k]));
            }
        }
        assert forall|i: int| 0 <= i < u.len() && !same_key(#[trigger] u[i], x) implies rows.contains(u[i]) by {
            assert(i != k);
            assert(u[i] == rows[i]);
        }
        assert forall|i: int, j: int|
            0 <= i < u.len() && 0 <= j < u.len() && i != j implies !same_key(#[trigger] u[i], #[trigger] u[j]) by {
            if i == k {
                assert(!same_key(rows[j], rows[k]));
            } else if j == k {
                assert(!same_key(rows[i], rows[k]));
            } else {
                assert(u[i] == rows[i] && u[j] == rows[j]);
            }
        }
    } else {
        assert(u[rows.len() as int] == x);
        assert forall|i: int| 0 <= i < u.len() && !same_key(#[trigger] u[i], x) implies rows.contains(u[i]) by {
            assert(u[i] == rows[i]);
        }
        assert forall|i: int, j: int|
            0 <= i < u.len() && 0 <= j < u.len() && i != j implies !same_key(#[trigger] u[i], #[trigger] u[j]) by {
            if i == rows.len() {
                assert(!same_key(rows[j], x));
            } else if j == rows.len() {
                assert(!same_key(rows[i], x));
            }
        }
    }
}

/// Writing an item twice under one key, with different field values, leaves exactly one
/// row with that key, holding the values written last; every other row was there before.
pub proof fn lemma_upsert_idempotent(rows: Seq<ItemView>, x: ItemView, y: ItemView)
    requires
        keys_unique(rows),
        same_key(x, y),
    ensures
        ({
            let r = upserted(upserted(rows, x), y);
            &&& keys_unique(r)
            &&& exists|i: int| 0 <= i < r.len() && r[i] == y
            &&& forall|i: int| 0 <= i < r.len() && same_key(#[trigger] r[i], y) ==> r[i] == y
            &&& forall|i: int, j: int|
                0 <= i < r.len() && 0 <= j < r.len() && same_key(#[trigger] r[i], y) && same_key(
                    #[trigger] r[j],
                    y,
                ) ==> i == j
            &&& forall|i: int| 0 <= i < r.len() && !same_key(#[trigger] r[i], y) ==> rows.contains(r[i])
            &&& r.len() == upserted(rows, x).len()
        }),
{
    let u = upserted(rows, x);
    lemma_upserted_shape(rows, x);
    lemma_upserted_shape(u, y);
    let r = upserted(u, y);
    let w = choose|i: int| 0 <= i < r.len() && same_key(#[trigger] r[i], y);
    assert(r[w] == y);
    assert forall|i: int| 0 <= i < r.len() && !same_key(#[trigger] r[i], y) implies rows.contains(r[i]) by {
        assert(u.contains(r[i]));
        let j = choose|j: int| 0 <= j < u.len() && u[j] == r[i];
        assert(!same_key(u[j], x));
    }
}

proof fn lemma_matching_members(rows: Seq<ItemView>, f: FilterView)
    ensures
        forall|i: int|
            0 <= i < matching(rows, f).len() ==> item_matches(f, #[trigger] matching(rows, f)[i])
                && rows.contains(matching(rows, f)[i]),
    decreases rows.len(),
{
    if rows.len() > 0 {
        let before = rows.drop_last();
        lemma_matching_members(before, f);
        let m = matching(rows, f);
        assert forall|i: int| 0 <= i < m.len() implies item_matches(f, #[trigger] m[i])
            && rows.contains(m[i]) by {
            if i < matching(before, f).len() {
                let j = choose|j: int| 0 <= j < before.len() && before[j] == m[i];
                assert(rows[j] == m[i]);
            } else {
                assert(m[i] == rows[rows.len() - 1]);
            }
        }
    }
}

/// A listing holds only rows of the store that satisfy every constraint of the filter,
/// newest first, as many as the limit allows; without a limit it holds all of them.
pub proof fn lemma_listing_composes(rows: Seq<ItemView>, f: FilterView, out: Seq<ItemView>)
    requires
        is_listing(rows, f, out),
    ensures
        forall|i: int| 0 <= i < out.len() ==> item_matches(f, #[trigger] out[i]) && rows.contains(out[i]),
        newest_first(out),
        out.len() == capped(f, matching(rows, f).len()),
        f.limit is Some ==> out.len() <= f.limit->0,
        f.limit is None ==> out.to_multiset() == matching(rows, f).to_multiset(),
{
    let s = choose|s: Seq<ItemView>|
        ordered_matches(rows, f, s) && out == s.take(capped(f, s.len()) as int);
    let m = matching(rows, f);
    s.to_multiset_ensures();
    m.to_multiset_ensures();
    lemma_matching_members(rows, f);
    assert forall|i: int| 0 <= i < out.len() implies item_matches(f, #[trigger] out[i]) && rows.contains(out[i]) by {
        assert(out[i] == s[i]);
        assert(s.contains(s[i]));
        assert(m.to_multiset().count(s[i]) > 0);
        let j = choose|j: int| 0 <= j < m.len() && m[j] == s[i];
        assert(item_matches(f, m[j]));
    }
    assert forall|i: int, j: int| 0 <= i < j < out.len() implies lex_le(
        #[trigger] out[j].published_at,
        #[trigger] out[i].published_at,
    ) by {
        assert(out[i] == s[i] && out[j] == s[j]);
    }
    if f.limit is None {
        assert(out =~= s);
    }
}


/// Every item of `xs` has kind `kind` and source id `source_id`.
pub open spec fn tagged(xs: Seq<ItemView>, kind: SourceKind, source_id: Seq<char>) -> bool {
    forall|i: int|
        0 <= i < xs.len() ==> (#[trigger] xs[i]).source_kind == kind && xs[i].source_id == source_id
}

/// Every row of `after` was a row of `before` or has kind `kind` and source id `source_id`.
pub open spec fn written_as(
    before: Seq<ItemView>,
    after: Seq<ItemView>,
    kind: SourceKind,
    source_id: Seq<char>,
) -> bool {
    forall|i: int|
        0 <= i < after.len() ==> before.contains(#[trigger] after[i]) || (after[i].source_kind
            == kind && after[i].source_id == source_id)
}

/// Writing items of one kind and source only adds or replaces rows of that kind and source.
pub proof fn lemma_upsert_all_written(
    before: Seq<ItemView>,
    xs: Seq<ItemView>,
    kind: SourceKind,
    source_id: Seq<char>,
)
    requires
        tagged(xs, kind, source_id),
    ensures
        written_as(before, upsert_all(before, xs), kind, source_id),
    decreases xs.len(),
{
    if xs.len() > 0 {
        let ys = xs.drop_last();
        assert(tagged(ys, kind, source_id)) by {
            assert forall|i: int| 0 <= i < ys.len() implies (#[trigger] ys[i]).source_kind == kind
                && ys[i].source_id == source_id by {
                assert(ys[i] == xs[i]);
            }
        }
        lemma_upsert_all_written(before, ys, kind, source_id);
        let u = upsert_all(before, ys);
        let x = xs.last();
        assert(x == xs[xs.len() - 1]);
        let a = upserted(u, x);
        if has_key(u, x) {
            lemma_first_with_key_exists(u, x);
            let k = choose|k: int| first_with_key(u, x, k);
            assert(a == u.update(k, x));
        }
        assert forall|i: int| 0 <= i < a.len() implies before.contains(#[trigger] a[i]) || (
        a[i].source_kind == kind && a[i].source_id == source_id) by {
            if a[i] != x {
                assert(a[i] == u[i]);
                assert(before.contains(u[i]) || (u[i].source_kind == kind && u[i].source_id
                    == source_id));
            }
        }
    }
}

/// When some row has the key of `x`, there is a first such row.
pub proof fn lemma_first_with_key_exists(rows: Seq<ItemView>, x: ItemView)
    requires
        has_key(rows, x),
    ensures
        exists|k: int| first_with_key(rows, x, k),
    decreases rows.len(),
{
    let init = rows.drop_last();
    if has_key(init, x) {
        lemma_first_with_key_exists(init, x);
        let k = choose|k: int| first_with_key(init, x, k);
        assert forall|j: int| 0 <= j < k implies !same_key(#[trigger] rows[j], x) by {
            assert(rows[j] == init[j]);
        }
        assert(rows[k] == init[k]);
        assert(first_with_key(rows, x, k));
    } else {
        let k = rows.len() - 1;
        let w = choose|i: int| 0 <= i < rows.len() && same_key(#[trigger] rows[i], x);
        if w < k {
            assert(init[w] == rows[w]);
        }
        assert forall|j: int| 0 <= j < k implies !same_key(#[trigger] rows[j], x) by {
            assert(rows[j] == init[j]);
        }
        assert(first_with_key(rows, x, k));
    }
}

/// A prefix of tagged items is tagged.
pub proof fn lemma_tagged_take(xs: Seq<ItemView>, k: int, kind: SourceKind, source_id: Seq<char>)
    requires
        tagged(xs, kind, source_id),
        0 <= k <= xs.len(),
    ensures
        tagged(xs.take(k), kind, source_id),
{
    assert forall|i: int| 0 <= i < xs.take(k).len() implies (#[trigger] xs.take(k)[i]).source_kind
        == kind && xs.take(k)[i].source_id == source_id by {
        assert(xs.take(k)[i] == xs[i]);
    }
}

} // verus!
