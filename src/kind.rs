//! The fixed set of platforms that items come from.
use vstd::prelude::*;
use crate::error::PaiError;
use crate::text::{ascii_fold, chars_eq, chars_of, eq_ignore_ascii_case, owned};

verus! {

broadcast use vstd::string::group_string_axioms;

/// A platform family that items come from.
#[derive(Debug, Clone, Copy, PartialEq, Eq, Hash, Structural)]
pub enum SourceKind {
    Substack,
    Bluesky,
    Leaflet,
    BearBlog,
}

impl SourceKind {
    /// The canonical lower-case name of the kind.
    pub open spec fn name(self) -> Seq<char> {
        match self {
            SourceKind::Substack => seq!['s', 'u', 'b', 's', 't', 'a', 'c', 'k'],
            SourceKind::Bluesky => seq!['b', 'l', 'u', 'e', 's', 'k', 'y'],
            SourceKind::Leaflet => seq!['l', 'e', 'a', 'f', 'l', 'e', 't'],
            SourceKind::BearBlog => seq!['b', 'e', 'a', 'r', 'b', 'l', 'o', 'g'],
        }
    }

    /// The kind whose name equals `s` up to ASCII letter case, if any.
    pub open spec fn named(s: Seq<char>) -> Option<SourceKind> {
        if eq_ignore_ascii_case(s, SourceKind::Substack.name()) {
            Some(SourceKind::Substack)
        } else if eq_ignore_ascii_case(s, SourceKind::Bluesky.name()) {
            Some(SourceKind::Bluesky)
        } else if eq_ignore_ascii_case(s, SourceKind::Leaflet.name()) {
            Some(SourceKind::Leaflet)
        } else if eq_ignore_ascii_case(s, SourceKind::BearBlog.name()) {
            Some(SourceKind::BearBlog)
        } else {
            None
        }
    }

    /// The canonical name, as a string slice.
    pub fn as_str(&self) -> (r: &'static str)
        ensures
            r@ == self.name(),
    {
        match self {
            SourceKind::Substack => {
                proof {
                    reveal_strlit("substack");
                }
                "substack"
            },
            SourceKind::Bluesky => {
                proof {
                    reveal_strlit("bluesky");
                }
                "bluesky"
            },
            SourceKind::Leaflet => {
                proof {
                    reveal_strlit("leaflet");
                }
                "leaflet"
            },
            SourceKind::BearBlog => {
                proof {
                    reveal_strlit("bearblog");
                }
                "bearblog"
            },
        }
    }

    /// The canonical name, as an owned string.
    pub fn to_string(&self) -> (r: String)
        ensures
            r@ == self.name(),
    {
        owned(self.as_str())
    }

    /// The kind whose name is exactly `t`, if any.
    pub open spec fn from_name(t: Seq<char>) -> Option<SourceKind> {
        if t == SourceKind::Substack.name() {
            Some(SourceKind::Substack)
        } else if t == SourceKind::Bluesky.name() {
            Some(SourceKind::Bluesky)
        } else if t == SourceKind::Leaflet.name() {
            Some(SourceKind::Leaflet)
        } else if t == SourceKind::BearBlog.name() {
            Some(SourceKind::BearBlog)
        } else {
            None
        }
    }

    /// Reads a kind from its name in any letter case: the lower case of `s` (by
    /// `str::to_lowercase`) must be a kind's name. Every ASCII-case variant of a name is
    /// accepted.
    pub fn parse(s: &str) -> (r: Result<SourceKind, PaiError>)
        ensures
            SourceKind::from_name(lower_of(s@)) is Some ==> r == Ok::<SourceKind, PaiError>(
                SourceKind::from_name(lower_of(s@))->0,
            ),
            SourceKind::from_name(lower_of(s@)) is None ==> (r matches Err(
                PaiError::UnknownSourceKind(t),
            ) && t@ == s@),
            SourceKind::named(s@) is Some ==> r == Ok::<SourceKind, PaiError>(
                SourceKind::named(s@)->0,
            ),
    {
        let low = lowercase(s);
        proof {
            if SourceKind::named(s@) is Some {
                let k = SourceKind::named(s@)->0;
                lemma_kind_round_trip(k, s@);
                let n = k.name();
                assert(all_ascii(n) && forall|i: int| 0 <= i < n.len() ==> !('A' <= #[trigger] n[i] && n[i] <= 'Z'));
                lemma_case_variant_is_ascii(s@, n);
                assert forall|i: int| 0 <= i < low@.len() implies low@[i] == n[i] by {
                    assert((low@[i] as u32) == ascii_fold(s@[i]));
                    lemma_chars_by_code(low@[i], n[i]);
                }
                assert(low@ =~= n);
            }
        }
        let cs = chars_of(low.as_str());
        if chars_eq(&cs, &chars_of(SourceKind::Substack.as_str())) {
            Ok(SourceKind::Substack)
        } else if chars_eq(&cs, &chars_of(SourceKind::Bluesky.as_str())) {
            Ok(SourceKind::Bluesky)
        } else if chars_eq(&cs, &chars_of(SourceKind::Leaflet.as_str())) {
            Ok(SourceKind::Leaflet)
        } else if chars_eq(&cs, &chars_of(SourceKind::BearBlog.as_str())) {
            Ok(SourceKind::BearBlog)
        } else {
            Err(PaiError::UnknownSourceKind(owned(s)))
        }
    }
}

/// The characters are all ASCII.
pub open spec fn all_ascii(s: Seq<char>) -> bool {
    forall|i: int| 0 <= i < s.len() ==> (#[trigger] s[i] as u32) < 128
}

/// The lower case of a text, as `str::to_lowercase` gives it.
pub uninterp spec fn lower_of(s: Seq<char>) -> Seq<char>;

/// Relies on str::to_lowercase: the Unicode lower case of the text; an ASCII text keeps
/// its length and each ASCII upper-case letter becomes its lower-case letter.
#[verifier::external_body]
fn lowercase(s: &str) -> (r: String)
    ensures
        r@ == lower_of(s@),
        all_ascii(s@) ==> r@.len() == s@.len() && forall|i: int|
            0 <= i < s@.len() ==> (#[trigger] r@[i] as u32) == ascii_fold(s@[i]),
{
    s.to_lowercase()
}

proof fn lemma_chars_by_code(x: char, y: char)
    ensures
        (x as u32) == (y as u32) ==> x == y,
{
}

/// A text equal to a lower-case ASCII name up to ASCII letter case is ASCII itself.
proof fn lemma_case_variant_is_ascii(s: Seq<char>, name: Seq<char>)
    requires
        eq_ignore_ascii_case(s, name),
        all_ascii(name),
        forall|i: int| 0 <= i < name.len() ==> !('A' <= #[trigger] name[i] && name[i] <= 'Z'),
    ensures
        all_ascii(s),
        forall|i: int| 0 <= i < s.len() ==> #[trigger] ascii_fold(s[i]) == name[i] as u32,
{
    assert forall|i: int| 0 <= i < s.len() implies (#[trigger] s[i] as u32) < 128 by {
        assert(ascii_fold(s[i]) == ascii_fold(name[i]));
    }
    assert forall|i: int| 0 <= i < s.len() implies #[trigger] ascii_fold(s[i]) == name[i] as u32 by {
        assert(ascii_fold(s[i]) == ascii_fold(name[i]));
    }
}

impl std::str::FromStr for SourceKind {
    type Err = PaiError;

    fn from_str(s: &str) -> Result<SourceKind, PaiError> {
        SourceKind::parse(s)
    }
}

/// Reading the canonical name of a kind, in any ASCII letter case, gives the kind back.
pub proof fn lemma_kind_round_trip(k: SourceKind, s: Seq<char>)
    requires
        eq_ignore_ascii_case(s, k.name()),
    ensures
        SourceKind::named(s) == Some(k),
{
    let n = k.name();
    assert(ascii_fold(s[0]) == ascii_fold(n[0]));
    if eq_ignore_ascii_case(s, SourceKind::Substack.name()) {
        assert(ascii_fold(s[0]) == ascii_fold(SourceKind::Substack.name()[0]));
    }
    if eq_ignore_ascii_case(s, SourceKind::Bluesky.name()) {
        assert(ascii_fold(s[0]) == ascii_fold(SourceKind::Bluesky.name()[0]));
    }
    if eq_ignore_ascii_case(s, SourceKind::Leaflet.name()) {
        assert(ascii_fold(s[0]) == ascii_fold(SourceKind::Leaflet.name()[0]));
    }
}

} // verus!
