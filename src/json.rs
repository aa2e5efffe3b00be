//! JSON documents as the library reads them, parsed by serde_json.

use vstd::prelude::*;
use serde_json::Value;

verus! {

#[verifier::external_type_specification]
#[verifier::external_body]
pub struct ExValue(serde_json::Value);

/// A JSON document.
pub enum Json {
    Null,
    Bool(bool),
    /// A number, as its decimal text.
    Number(String),
    Str(String),
    Array(Vec<Json>),
    /// The members of an object; their keys are distinct.
    Object(Vec<Member>),
}

/// One member of a JSON object.
pub struct Member {
    pub key: String,
    pub value: Json,
}

/// The document that serde_json reads from a text, or `None` when the text
/// is not one JSON document.
pub uninterp spec fn json_of(s: Seq<char>) -> Option<Json>;

/// Relies on `serde_json::from_str` into `serde_json::Value`: parses one JSON
/// document, `None` when the text is not one; empty text never is. The value
/// is then copied variant by variant.
#[verifier::external_body]
pub fn parse_json(text: &str) -> (r: Option<Json>)
    ensures
        r == json_of(text@),
        text@.len() == 0 ==> r is None,
{
    serde_json::from_str::<Value>(text).ok().map(|v| from_value(&v))
}

/// Copies a `serde_json::Value` into a `Json`, variant by variant; helper of
/// `parse_json`.
#[verifier::external_body]
fn from_value(v: &Value) -> Json {
    match v {
        Value::Null => Json::Null,
        Value::Bool(b) => Json::Bool(*b),
        Value::Number(n) => Json::Number(n.to_string()),
        Value::String(s) => Json::Str(s.clone()),
        Value::Array(a) => Json::Array(a.iter().map(from_value).collect()),
        Value::Object(m) => Json::Object(
            m.iter().map(|(k, x)| Member { key: k.clone(), value: from_value(x) }).collect(),
        ),
    }
}

/// The value of the first member keyed `key`.
pub open spec fn entry_value(ms: Seq<Member>, key: Seq<char>) -> Option<Json>
    decreases ms.len(),
{
    if ms.len() == 0 {
        None
    } else if ms[0].key@ == key {
        Some(ms[0].value)
    } else {
        entry_value(ms.drop_first(), key)
    }
}

/// The member `key` of an object; `None` for a missing key or a non-object.
pub open spec fn member_of(v: Option<Json>, key: Seq<char>) -> Option<Json> {
    match v {
        Some(Json::Object(ms)) => entry_value(ms@, key),
        _ => None,
    }
}

/// The text of a string value.
pub open spec fn text_of(v: Option<Json>) -> Option<Seq<char>> {
    match v {
        Some(Json::Str(s)) => Some(s@),
        _ => None,
    }
}

/// The elements of an array value.
pub open spec fn items_of(v: Option<Json>) -> Option<Seq<Json>> {
    match v {
        Some(Json::Array(a)) => Some(a@),
        _ => None,
    }
}

/// The texts of the string elements among `xs`, in order.
pub open spec fn texts_in(xs: Seq<Json>) -> Seq<Seq<char>>
    decreases xs.len(),
{
    if xs.len() == 0 {
        Seq::empty()
    } else {
        let rest = texts_in(xs.drop_last());
        match xs.last() {
            Json::Str(s) => rest.push(s@),
            _ => rest,
        }
    }
}

/// The string elements of an array value; none for anything else.
pub open spec fn text_items_of(v: Option<Json>) -> Seq<Seq<char>> {
    match items_of(v) {
        Some(xs) => texts_in(xs),
        None => Seq::empty(),
    }
}

/// The member `key` of an object.
pub fn member<'a>(v: &'a Json, key: &str) -> (r: Option<&'a Json>)
    ensures
        match r {
            Some(m) => member_of(Some(*v), key@) == Some(*m),
            None => member_of(Some(*v), key@) is None,
        },
{
    match v {
        Json::Object(ms) => {
            let mut i: usize = 0;
            assert(ms@.subrange(0, ms@.len() as int) == ms@);
            while i < ms.len()
                invariant
                    i <= ms@.len(),
                    member_of(Some(*v), key@) == entry_value(ms@, key@),
                    entry_value(ms@, key@) == entry_value(ms@.subrange(i as int, ms@.len() as int), key@),
                decreases ms@.len() - i,
            {
                let ghost rest = ms@.subrange(i as int, ms@.len() as int);
                assert(rest.drop_first() == ms@.subrange(i + 1, ms@.len() as int));
                assert(rest[0] == ms@[i as int]);
                if crate::text::text_eq(ms[i].key.as_str(), key) {
                    assert(entry_value(rest, key@) == Some(ms@[i as int].value));
                    return Some(&ms[i].value);
                }
                i = i + 1;
            }
            assert(entry_value(ms@.subrange(i as int, ms@.len() as int), key@) is None);
            None
        },
        _ => None,
    }
}

/// The text of a string value.
pub fn as_text(v: Option<&Json>) -> (r: Option<String>)
    ensures
        match r {
            Some(s) => text_of(match v { Some(x) => Some(*x), None => None }) == Some(s@),
            None => text_of(match v { Some(x) => Some(*x), None => None }) is None,
        },
{
    match v {
        Some(Json::Str(s)) => Some(s.clone()),
        _ => None,
    }
}

/// The string elements of an array value, in order; none for anything else.
pub fn text_items(v: Option<&Json>) -> (r: Vec<String>)
    ensures
        r@.map_values(|s: String| s@) == text_items_of(match v { Some(x) => Some(*x), None => None }),
{
    let mut out: Vec<String> = Vec::new();
    match v {
        Some(Json::Array(xs)) => {
            let mut i: usize = 0;
            while i < xs.len()
                invariant
                    i <= xs@.len(),
                    out@.map_values(|s: String| s@) == texts_in(xs@.subrange(0, i as int)),
                decreases xs@.len() - i,
            {
                let ghost pre = xs@.subrange(0, i as int);
                assert(xs@.subrange(0, i + 1 as int).drop_last() == pre);
                assert(xs@.subrange(0, i + 1 as int).last() == xs@[i as int]);
                match &xs[i] {
                    Json::Str(s) => {
                        out.push(s.clone());
                        assert(out@.map_values(|s: String| s@) =~= texts_in(pre).push(s@));
                    },
                    _ => {},
                }
                i = i + 1;
            }
            assert(xs@.subrange(0, xs@.len() as int) == xs@);
            out
        },
        _ => {
            assert(out@.map_values(|s: String| s@) =~= Seq::<Seq<char>>::empty());
            out
        },
    }
}

} // verus!
