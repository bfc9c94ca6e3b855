//! Settings given as flat text, as an edge deployment reads them from its environment:
//! comma-separated lists of `id:base_url` entries and of origins.
use vstd::prelude::*;
use crate::config::{
    BearBlogConfig, BlueskyConfig, CorsConfig, LeafletConfig, SourcesConfig, SubstackConfig,
};
use crate::text::{chars_of, find_char, first_index, owned, push_char, slice_owned, trim, trim_str};

verus! {

broadcast use vstd::string::group_string_axioms;

/// The pieces of `s` between occurrences of `c`; one piece when there is none.
pub open spec fn split_on(s: Seq<char>, c: char) -> Seq<Seq<char>>
    decreases s.len(),
{
    if s.len() == 0 {
        seq![Seq::empty()]
    } else {
        let rest = split_on(s.drop_last(), c);
        if s.last() == c {
            rest.push(Seq::empty())
        } else {
            rest.update(rest.len() - 1, rest.last().push(s.last()))
        }
    }
}

proof fn lemma_split_nonempty(s: Seq<char>, c: char)
    ensures
        split_on(s, c).len() >= 1,
    decreases s.len(),
{
    if s.len() > 0 {
        lemma_split_nonempty(s.drop_last(), c);
    }
}

pub open spec fn strings_view(v: Seq<String>) -> Seq<Seq<char>> {
    v.map_values(|s: String| s@)
}

/// Splits `s` at each `c`.
pub fn split_str(s: &str, c: char) -> (r: Vec<String>)
    ensures
        strings_view(r@) == split_on(s@, c),
{
    let cs = chars_of(s);
    let mut pieces: Vec<String> = Vec::new();
    let mut current = String::new();
    let mut i: usize = 0;
    assert(s@.take(0) =~= Seq::<char>::empty());
    assert(strings_view(pieces@).push(current@) =~= split_on(s@.take(0), c));
    while i < cs.len()
        invariant
            cs@ == s@,
            i <= cs@.len(),
            strings_view(pieces@).push(current@) == split_on(s@.take(i as int), c),
        decreases cs.len() - i,
    {
        let ch = cs[i];
        assert(s@.take(i + 1).drop_last() =~= s@.take(i as int));
        proof {
            lemma_split_nonempty(s@.take(i as int), c);
        }
        if ch == c {
            let ghost before = pieces@;
            pieces.push(current);
            current = String::new();
            assert(strings_view(pieces@).push(current@) =~= split_on(s@.take(i + 1), c));
        } else {
            push_char(&mut current, ch);
            assert(strings_view(pieces@).push(current@) =~= split_on(s@.take(i + 1), c));
        }
        i += 1;
    }
    assert(s@.take(i as int) =~= s@);
    let ghost before = pieces@;
    pieces.push(current);
    assert(strings_view(pieces@) =~= strings_view(before).push(current@));
    pieces
}

/// An `id:base_url` entry, trimmed, split at its first colon; none without a colon.
pub open spec fn source_entry(e: Seq<char>) -> Option<(Seq<char>, Seq<char>)> {
    let t = trim(e);
    let k = first_index(t, ':');
    if k < t.len() {
        Some((t.subrange(0, k), t.subrange(k + 1, t.len() as int)))
    } else {
        None
    }
}

pub open spec fn pair_view(p: (String, String)) -> (Seq<char>, Seq<char>) {
    (p.0@, p.1@)
}

/// Reads one `id:base_url` entry.
pub fn split_source_entry(entry: &str) -> (r: Option<(String, String)>)
    ensures
        r is Some <==> source_entry(entry@) is Some,
        r is Some ==> pair_view(r->0) == source_entry(entry@)->0,
{
    let t = trim_str(entry);
    let cs = chars_of(t.as_str());
    let k = find_char(&cs, ':');
    if k < cs.len() {
        Some((slice_owned(t.as_str(), 0, k), slice_owned(t.as_str(), k + 1, cs.len())))
    } else {
        None
    }
}

/// The entries of a comma-separated list, skipping pieces without a colon.
pub open spec fn source_entries(pieces: Seq<Seq<char>>) -> Seq<(Seq<char>, Seq<char>)>
    decreases pieces.len(),
{
    if pieces.len() == 0 {
        Seq::empty()
    } else {
        let before = source_entries(pieces.drop_last());
        match source_entry(pieces.last()) {
            Some(p) => before.push(p),
            None => before,
        }
    }
}

pub open spec fn pairs_view(v: Seq<(String, String)>) -> Seq<(Seq<char>, Seq<char>)> {
    v.map_values(|p: (String, String)| pair_view(p))
}

/// Reads a comma-separated list of `id:base_url` entries, in order.
pub fn parse_source_list(list: &str) -> (r: Vec<(String, String)>)
    ensures
        pairs_view(r@) == source_entries(split_on(list@, ',')),
{
    let pieces = split_str(list, ',');
    let ghost ps = split_on(list@, ',');
    let mut out: Vec<(String, String)> = Vec::new();
    let mut i: usize = 0;
    assert(ps.take(0) =~= Seq::<Seq<char>>::empty());
    while i < pieces.len()
        invariant
            strings_view(pieces@) == ps,
            i <= pieces@.len(),
            pairs_view(out@) == source_entries(ps.take(i as int)),
        decreases pieces.len() - i,
    {
        assert(ps.take(i + 1).drop_last() =~= ps.take(i as int));
        assert(ps.take(i + 1).last() == pieces@[i as int]@);
        match split_source_entry(pieces[i].as_str()) {
            Some(p) => {
                let ghost before = out@;
                out.push(p);
                assert(pairs_view(out@) =~= pairs_view(before).push(pair_view(p)));
            },
            None => {},
        }
        i += 1;
    }
    assert(ps.take(i as int) =~= ps);
    out
}

/// Reads a comma-separated list of origins, each trimmed.
pub fn parse_origin_list(list: &str) -> (r: Vec<String>)
    ensures
        strings_view(r@) == split_on(list@, ',').map_values(|p: Seq<char>| trim(p)),
{
    let pieces = split_str(list, ',');
    let ghost ps = split_on(list@, ',');
    let mut out: Vec<String> = Vec::new();
    let mut i: usize = 0;
    while i < pieces.len()
        invariant
            strings_view(pieces@) == ps,
            i <= pieces@.len(),
            strings_view(out@) =~= ps.map_values(|p: Seq<char>| trim(p)).take(i as int),
        decreases pieces.len() - i,
    {
        let t = trim_str(pieces[i].as_str());
        let ghost before = out@;
        out.push(t);
        assert(strings_view(out@) =~= strings_view(before).push(t@));
        i += 1;
    }
    out
}

/// Leaflet publications from a list of `id:base_url` entries, all enabled.
pub fn leaflet_sources(list: &str) -> (r: Vec<LeafletConfig>)
    ensures
        r@.len() == source_entries(split_on(list@, ',')).len(),
        forall|i: int|
            0 <= i < r@.len() ==> (#[trigger] r@[i]).enabled && (r@[i].id@, r@[i].base_url@)
                == source_entries(split_on(list@, ','))[i],
{
    let pairs = parse_source_list(list);
    let mut out: Vec<LeafletConfig> = Vec::new();
    let mut i: usize = 0;
    while i < pairs.len()
        invariant
            i <= pairs@.len(),
            out@.len() == i,
            pairs_view(pairs@) == source_entries(split_on(list@, ',')),
            forall|j: int|
                0 <= j < i ==> (#[trigger] out@[j]).enabled && (out@[j].id@, out@[j].base_url@)
                    == pairs_view(pairs@)[j],
        decreases pairs.len() - i,
    {
        let p = &pairs[i];
        out.push(LeafletConfig { enabled: true, id: p.0.clone(), base_url: p.1.clone() });
        i += 1;
    }
    out
}

/// BearBlog publications from a list of `id:base_url` entries, all enabled.
pub fn bearblog_sources(list: &str) -> (r: Vec<BearBlogConfig>)
    ensures
        r@.len() == source_entries(split_on(list@, ',')).len(),
        forall|i: int|
            0 <= i < r@.len() ==> (#[trigger] r@[i]).enabled && (r@[i].id@, r@[i].base_url@)
                == source_entries(split_on(list@, ','))[i],
{
    let pairs = parse_source_list(list);
    let mut out: Vec<BearBlogConfig> = Vec::new();
    let mut i: usize = 0;
    while i < pairs.len()
        invariant
            i <= pairs@.len(),
            out@.len() == i,
            pairs_view(pairs@) == source_entries(split_on(list@, ',')),
            forall|j: int|
                0 <= j < i ==> (#[trigger] out@[j]).enabled && (out@[j].id@, out@[j].base_url@)
                    == pairs_view(pairs@)[j],
        decreases pairs.len() - i,
    {
        let p = &pairs[i];
        out.push(BearBlogConfig { enabled: true, id: p.0.clone(), base_url: p.1.clone() });
        i += 1;
    }
    out
}

/// The sources an edge deployment syncs, from its settings: a Substack base URL, a
/// Bluesky handle and lists of Leaflet and BearBlog `id:base_url` entries. Every source
/// given is enabled.
pub fn sources_from_settings(
    substack_url: Option<String>,
    bluesky_handle: Option<String>,
    leaflet_list: Option<String>,
    bearblog_list: Option<String>,
) -> (r: SourcesConfig)
    ensures
        match substack_url {
            Some(u) => r.substack is Some && r.substack->0.enabled && r.substack->0.base_url == u,
            None => r.substack is None,
        },
        match bluesky_handle {
            Some(h) => r.bluesky is Some && r.bluesky->0.enabled && r.bluesky->0.handle == h,
            None => r.bluesky is None,
        },
        match leaflet_list {
            Some(l) => r.leaflet@.len() == source_entries(split_on(l@, ',')).len(),
            None => r.leaflet@.len() == 0,
        },
        match bearblog_list {
            Some(l) => r.bearblog@.len() == source_entries(split_on(l@, ',')).len(),
            None => r.bearblog@.len() == 0,
        },
{
    let substack = match substack_url {
        Some(u) => Some(SubstackConfig { enabled: true, base_url: u }),
        None => None,
    };
    let bluesky = match bluesky_handle {
        Some(h) => Some(BlueskyConfig { enabled: true, handle: h }),
        None => None,
    };
    let leaflet = match &leaflet_list {
        Some(l) => leaflet_sources(l.as_str()),
        None => Vec::new(),
    };
    let bearblog = match &bearblog_list {
        Some(l) => bearblog_sources(l.as_str()),
        None => Vec::new(),
    };
    SourcesConfig { substack, bluesky, leaflet, bearblog }
}

/// CORS settings from a comma-separated list of origins (each trimmed) and a key.
pub fn cors_from_settings(origins: Option<String>, dev_key: Option<String>) -> (r: CorsConfig)
    ensures
        match origins {
            Some(o) => strings_view(r.allowed_origins@) == split_on(o@, ',').map_values(
                |p: Seq<char>| trim(p),
            ),
            None => r.allowed_origins@.len() == 0,
        },
        r.dev_key == dev_key,
{
    let allowed_origins = match &origins {
        Some(o) => parse_origin_list(o.as_str()),
        None => Vec::new(),
    };
    CorsConfig { allowed_origins, dev_key }
}

} // verus!
