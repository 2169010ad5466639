//! JSON documents as discovery reads them. A text is parsed by `serde_json`;
//! what it yields is copied into a type of this crate, which the extractors
//! read.

use vstd::prelude::*;

verus! {

/// Trusted: the type `serde_json::Value`. Nothing is known of a value of it
/// but what the two calls below say.
#[verifier::external_type_specification]
#[verifier::external_body]
pub struct ExValue(serde_json::Value);

/// A JSON document. A number is kept as its text.
#[derive(Debug, PartialEq)]
pub enum Json {
    Null,
    Bool(bool),
    Number(String),
    Text(String),
    Array(Vec<Json>),
    Object(Vec<(String, Json)>),
}

/// What `serde_json` parses a strict JSON text to, if it parses.
pub uninterp spec fn parsed_value(text: Seq<char>) -> Option<serde_json::Value>;

/// The document that holds what a parsed value holds: the same variant with
/// the same contents, the entries of an object in the order of its map.
pub uninterp spec fn json_of(v: serde_json::Value) -> Json;

/// The document that a strict JSON text parses to, if it parses.
pub open spec fn parsed_json(text: Seq<char>) -> Option<Json> {
    match parsed_value(text) {
        Some(v) => Some(json_of(v)),
        None => None,
    }
}

/// The entries of an object, names as plain text.
pub open spec fn entry_models(es: Seq<(String, Json)>) -> Seq<(Seq<char>, Json)> {
    Seq::new(es.len(), |i: int| (es[i].0@, es[i].1))
}

/// The entries of an object, in order; `None` for a value that is no object.
pub open spec fn object_of(v: Json) -> Option<Seq<(Seq<char>, Json)>> {
    match v {
        Json::Object(es) => Some(entry_models(es@)),
        _ => None,
    }
}

/// The text of a string value; `None` for a value that is no string.
pub open spec fn text_of(v: Json) -> Option<Seq<char>> {
    match v {
        Json::Text(s) => Some(s@),
        _ => None,
    }
}

/// The elements of an array; `None` for a value that is no array.
pub open spec fn items_of(v: Json) -> Option<Seq<Json>> {
    match v {
        Json::Array(a) => Some(a@),
        _ => None,
    }
}

/// The value that stands under `key` among the first `n` entries: that of
/// the last of them with that name.
pub open spec fn lookup_in(es: Seq<(Seq<char>, Json)>, key: Seq<char>, n: int) -> Option<Json>
    decreases n,
{
    if n <= 0 || n > es.len() {
        None
    } else if es[n - 1].0 == key {
        Some(es[n - 1].1)
    } else {
        lookup_in(es, key, n - 1)
    }
}

/// The member `key` of a value: that of an object which has it, else `None`.
pub open spec fn member_of(v: Json, key: Seq<char>) -> Option<Json> {
    match object_of(v) {
        Some(es) => lookup_in(es, key, es.len() as int),
        None => None,
    }
}

/// Trusted: `serde_json::from_str` at `serde_json::Value`, with the error
/// dropped. The result is named, not described.
#[verifier::external_body]
pub(crate) fn parse_value(text: &str) -> (r: Option<serde_json::Value>)
    ensures
        r == parsed_value(text@),
{
    serde_json::from_str::<serde_json::Value>(text).ok()
}

/// Trusted: the variants of `serde_json::Value`, each copied into the variant
/// of the same kind, a number by `Number::to_string`, the entries of an
/// object as `Map::iter` yields them. The result is named, not described.
#[verifier::external_body]
pub(crate) fn json_of_value(v: &serde_json::Value) -> (r: Json)
    ensures
        r == json_of(*v),
{
    match v {
        serde_json::Value::Null => Json::Null,
        serde_json::Value::Bool(b) => Json::Bool(*b),
        serde_json::Value::Number(n) => Json::Number(n.to_string()),
        serde_json::Value::String(s) => Json::Text(s.clone()),
        serde_json::Value::Array(a) => Json::Array(a.iter().map(json_of_value).collect()),
        serde_json::Value::Object(m) => Json::Object(
            m.iter().map(|(k, x)| (k.clone(), json_of_value(x))).collect(),
        ),
    }
}

/// Parses a strict JSON text.
pub fn parse_document(text: &str) -> (r: Option<Json>)
    ensures
        r == parsed_json(text@),
{
    match parse_value(text) {
        Some(v) => Some(json_of_value(&v)),
        None => None,
    }
}

/// The entries of an object.
pub fn object_entries(v: &Json) -> (r: Option<&Vec<(String, Json)>>)
    ensures
        match r {
            Some(es) => object_of(*v) == Some(entry_models(es@)),
            None => object_of(*v).is_none(),
        },
{
    match v {
        Json::Object(es) => Some(es),
        _ => None,
    }
}

/// The text of a string value.
pub fn string_value(v: &Json) -> (r: Option<&String>)
    ensures
        match r {
            Some(s) => text_of(*v) == Some(s@),
            None => text_of(*v).is_none(),
        },
{
    match v {
        Json::Text(s) => Some(s),
        _ => None,
    }
}

/// The elements of an array.
pub fn array_items(v: &Json) -> (r: Option<&Vec<Json>>)
    ensures
        match r {
            Some(a) => items_of(*v) == Some(a@),
            None => items_of(*v).is_none(),
        },
{
    match v {
        Json::Array(a) => Some(a),
        _ => None,
    }
}

/// The member of an object under a name. Where the name stands more than
/// once, the last entry counts.
pub fn member<'a>(v: &'a Json, key: &str) -> (r: Option<&'a Json>)
    ensures
        match r {
            Some(m) => member_of(*v, key@) == Some(*m),
            None => member_of(*v, key@).is_none(),
        },
{
    match v {
        Json::Object(es) => {
            let name = String::from_str(key);
            let ghost models = entry_models(es@);
            let mut k: usize = es.len();
            while k > 0
                invariant
                    k <= es.len(),
                    models == entry_models(es@),
                    object_of(*v) == Some(models),
                    name@ == key@,
                    lookup_in(models, key@, es.len() as int) == lookup_in(models, key@, k as int),
                decreases k,
            {
                assert(models[k - 1] == (es@[k - 1].0@, es@[k - 1].1));
                if es[k - 1].0 == name {
                    return Some(&es[k - 1].1);
                }
                k = k - 1;
            }
            None
        },
        _ => None,
    }
}

} // verus!
