//! JSON documents as plain values.
use vstd::prelude::*;
use crate::text::{chars_eq, chars_of};

verus! {

broadcast use {
    vstd::string::group_string_axioms,
    vstd::std_specs::vec::group_vec_axioms,
    vstd::seq::group_seq_axioms,
};

/// A JSON value; a number keeps the text serde_json writes for it.
#[derive(Debug)]
pub enum Json {
    Null,
    Bool(bool),
    Number(String),
    Str(String),
    Array(Vec<Json>),
    /// Members in the order serde_json keeps them (by key), each key once.
    Object(Vec<(String, Json)>),
}

/// A JSON value as mathematical values.
pub ghost enum JsonView {
    Null,
    Bool(bool),
    Number(Seq<char>),
    Str(Seq<char>),
    Array(Seq<JsonView>),
    Object(Seq<(Seq<char>, JsonView)>),
}

pub open spec fn json_view(j: Json) -> JsonView
    decreases j,
{
    match j {
        Json::Null => JsonView::Null,
        Json::Bool(b) => JsonView::Bool(b),
        Json::Number(n) => JsonView::Number(n@),
        Json::Str(s) => JsonView::Str(s@),
        Json::Array(v) => JsonView::Array(
            Seq::new(
                v@.len(),
                |i: int|
                    {
                        if 0 <= i < v@.len() {
                            json_view(v@[i])
                        } else {
                            JsonView::Null
                        }
                    },
            ),
        ),
        Json::Object(m) => JsonView::Object(
            Seq::new(
                m@.len(),
                |i: int|
                    {
                        if 0 <= i < m@.len() {
                            (m@[i].0@, json_view(m@[i].1))
                        } else {
                            (Seq::empty(), JsonView::Null)
                        }
                    },
            ),
        ),
    }
}

/// The value that serde_json reads from a JSON text; none when the text is no JSON.
pub uninterp spec fn json_of(text: Seq<char>) -> Option<JsonView>;

/// Relies on serde_json::from_str into serde_json::Value: reads a JSON text.
#[verifier::external_body]
pub(crate) fn parse_json(text: &str) -> (r: Option<Json>)
    ensures
        r is Some <==> json_of(text@) is Some,
        r is Some ==> json_view(r->0) == json_of(text@)->0,
{
    serde_json::from_str::<serde_json::Value>(text).ok().map(json_from_value)
}

/// Relies on serde_json::Value's variants: copies a value into `Json`, variant by
/// variant (a number as the text serde_json writes for it).
#[verifier::external_body]
fn json_from_value(v: serde_json::Value) -> Json {
    match v {
        serde_json::Value::Null => Json::Null,
        serde_json::Value::Bool(b) => Json::Bool(b),
        serde_json::Value::Number(n) => Json::Number(n.to_string()),
        serde_json::Value::String(s) => Json::Str(s),
        serde_json::Value::Array(a) => Json::Array(a.into_iter().map(json_from_value).collect()),
        serde_json::Value::Object(m) => Json::Object(m.into_iter().map(|(k, x)| (k, json_from_value(x))).collect()),
    }
}

/// The value of the member `key` among `ms`, the first with that key.
pub open spec fn find_member(ms: Seq<(Seq<char>, JsonView)>, key: Seq<char>) -> Option<JsonView>
    decreases ms.len(),
{
    if ms.len() == 0 {
        None
    } else if ms[0].0 == key {
        Some(ms[0].1)
    } else {
        find_member(ms.drop_first(), key)
    }
}

/// The member `key` of an object; none for a missing member or a value that is no object.
pub open spec fn member_of(j: JsonView, key: Seq<char>) -> Option<JsonView> {
    match j {
        JsonView::Object(ms) => find_member(ms, key),
        _ => None,
    }
}

pub open spec fn opt_json_view(o: Option<&Json>) -> Option<JsonView> {
    match o {
        Some(j) => Some(json_view(*j)),
        None => None,
    }
}

/// The member `key` of `j`, if `j` is an object that has it.
pub fn member<'a>(j: &'a Json, key: &str) -> (r: Option<&'a Json>)
    ensures
        opt_json_view(r) == member_of(json_view(*j), key@),
{
    match j {
        Json::Object(ms) => {
            let ghost vs = match json_view(*j) {
                JsonView::Object(x) => x,
                _ => Seq::empty(),
            };
            let kc = chars_of(key);
            let mut i: usize = 0;
            assert(vs.subrange(0, vs.len() as int) =~= vs);
            while i < ms.len()
                invariant
                    i <= ms@.len(),
                    vs.len() == ms@.len(),
                    json_view(*j) == JsonView::Object(vs),
                    kc@ == key@,
                    forall|k: int| 0 <= k < ms@.len() ==> #[trigger] vs[k] == (ms@[k].0@, json_view(ms@[k].1)),
                    find_member(vs, key@) == find_member(vs.subrange(i as int, vs.len() as int), key@),
                decreases ms.len() - i,
            {
                let ghost t = vs.subrange(i as int, vs.len() as int);
                assert(t[0] == vs[i as int]);
                if chars_eq(&chars_of(ms[i].0.as_str()), &kc) {
                    assert(t.len() > 0 && t[0].0 == key@);
                    assert(find_member(t, key@) == Some(vs[i as int].1));
                    return Some(&ms[i].1);
                }
                assert(t.drop_first() =~= vs.subrange(i + 1, vs.len() as int));
                i += 1;
            }
            None
        },
        _ => None,
    }
}

} // verus!
