//! A plain model of JSON values, the one outside call that parses text into
//! it, and field lookup over the model.

use vstd::prelude::*;

use crate::text::str_eq;

verus! {

/// `serde_json::Value`, carried opaquely from the parser into the model below.
#[verifier::external_type_specification]
#[verifier::external_body]
pub struct ExJsonValue(serde_json::Value);

/// A JSON value as the library reads it.
///
/// Numbers keep only what `serde_json::Value::as_u64` gives for them (the
/// value when it is an integer in `u64`); objects keep their members in the
/// order that `serde_json` iterates them, with no key twice.
#[derive(Debug)]
pub enum Json {
    Null,
    Bool(bool),
    Number(Option<u64>),
    Str(String),
    Array(Vec<Json>),
    Object(Vec<(String, Json)>),
}

/// What `serde_json::from_str::<serde_json::Value>` makes of a text, in the
/// model above (`None` when it reports an error).
pub uninterp spec fn json_parse(text: Seq<char>) -> Option<Json>;

/// Moves a parsed `serde_json::Value` into the model, variant by variant.
#[verifier::external_body]
fn json_from_value(v: serde_json::Value) -> Json {
    match v {
        serde_json::Value::Null => Json::Null,
        serde_json::Value::Bool(b) => Json::Bool(b),
        serde_json::Value::Number(n) => Json::Number(n.as_u64()),
        serde_json::Value::String(s) => Json::Str(s),
        serde_json::Value::Array(a) => Json::Array(a.into_iter().map(json_from_value).collect()),
        serde_json::Value::Object(m) => Json::Object(
            m.into_iter().map(|(k, x)| (k, json_from_value(x))).collect(),
        ),
    }
}

/// Parses `text` with `serde_json::from_str::<serde_json::Value>`.
/// Claimed: the result is `json_parse(text@)`, a function of the text alone.
#[verifier::external_body]
pub(crate) fn parse_json(text: &str) -> (r: Option<Json>)
    ensures
        r == json_parse(text@),
{
    serde_json::from_str::<serde_json::Value>(text).ok().map(json_from_value)
}

/// Reads a JSON text into the model: what `serde_json` makes of it, `None`
/// when the text is not JSON.
pub fn parse_json_text(text: &str) -> (r: Option<Json>)
    ensures
        r == json_parse(text@),
{
    parse_json(text)
}

/// The value of the first member named `key`.
pub open spec fn lookup(fields: Seq<(String, Json)>, key: Seq<char>) -> Option<Json>
    decreases fields.len(),
{
    if fields.len() == 0 {
        None
    } else if fields[0].0@ == key {
        Some(fields[0].1)
    } else {
        lookup(fields.drop_first(), key)
    }
}

/// `v.get(key)`: the member `key` of an object; `None` for any other value.
pub open spec fn field(v: Json, key: Seq<char>) -> Option<Json> {
    match v {
        Json::Object(fs) => lookup(fs@, key),
        _ => None,
    }
}

/// The text of a string value.
pub open spec fn str_of(v: Option<Json>) -> Option<Seq<char>> {
    match v {
        Some(Json::Str(s)) => Some(s@),
        _ => None,
    }
}

/// `v.get(key).and_then(|x| x.as_str())`.
pub open spec fn str_field(v: Json, key: Seq<char>) -> Option<Seq<char>> {
    str_of(field(v, key))
}

/// `v.get(key).and_then(|x| x.as_u64())`.
pub open spec fn u64_field(v: Json, key: Seq<char>) -> Option<u64> {
    match field(v, key) {
        Some(Json::Number(n)) => n,
        _ => None,
    }
}

/// A reference that points at the value `o` holds, or nothing when `o` is `None`.
pub open spec fn ref_is(r: Option<&Json>, o: Option<Json>) -> bool {
    match (r, o) {
        (Some(a), Some(b)) => *a == b,
        (None, None) => true,
        _ => false,
    }
}

/// The view of an optional string.
pub open spec fn opt_view(o: Option<&String>) -> Option<Seq<char>> {
    match o {
        Some(s) => Some(s@),
        None => None,
    }
}

/// Looks up the member `key` of an object value.
pub fn get_field<'a>(v: &'a Json, key: &str) -> (r: Option<&'a Json>)
    ensures
        ref_is(r, field(*v, key@)),
{
    match v {
        Json::Object(fs) => {
            let mut i: usize = 0;
            assert(fs@.skip(0) =~= fs@);
            while i < fs.len()
                invariant
                    i <= fs@.len(),
                    field(*v, key@) == lookup(fs@, key@),
                    lookup(fs@, key@) == lookup(fs@.skip(i as int), key@),
                decreases fs@.len() - i,
            {
                assert(fs@.skip(i as int).drop_first() =~= fs@.skip(i + 1));
                assert(fs@.skip(i as int)[0] == fs@[i as int]);
                let entry = &fs[i];
                if str_eq(entry.0.as_str(), key) {
                    return Some(&entry.1);
                }
                i = i + 1;
            }
            None
        },
        _ => None,
    }
}

/// Looks up a member and reads it as a string.
pub fn get_str<'a>(v: &'a Json, key: &str) -> (r: Option<&'a String>)
    ensures
        opt_view(r) == str_field(*v, key@),
{
    match get_field(v, key) {
        Some(Json::Str(s)) => Some(s),
        _ => None,
    }
}

/// Looks up a member and reads it as a `u64`.
pub fn get_u64(v: &Json, key: &str) -> (r: Option<u64>)
    ensures
        r == u64_field(*v, key@),
{
    match get_field(v, key) {
        Some(Json::Number(n)) => *n,
        _ => None,
    }
}

} // verus!
