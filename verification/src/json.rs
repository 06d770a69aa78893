//! JSON documents, as `serde_json` reads them.
//!
//! The functions here call `serde_json` and are taken at their word; what they
//! say of a document is said over the tree ([`Json`]) that it stands for.

use vstd::prelude::*;

verus! {

/// A document of `serde_json`.
#[verifier::external_type_specification]
#[verifier::external_body]
pub struct ExValue(serde_json::Value);

/// What a document stands for.
pub enum Json {
    Null,
    Bool(bool),
    /// A number. Only a whole number from zero up that fits 64 bits is told.
    Number(Option<u64>),
    Text(Seq<char>),
    Array(Seq<Json>),
    Object(Map<Seq<char>, Json>),
}

/// What a document of `serde_json` stands for.
pub uninterp spec fn tree(value: serde_json::Value) -> Json;

/// What `serde_json` makes of a text: what the document stands for, or the
/// message of the error.
pub uninterp spec fn json_outcome(text: Seq<char>) -> Result<Json, Seq<char>>;

/// The trees of documents.
pub open spec fn trees(values: Seq<serde_json::Value>) -> Seq<Json> {
    values.map_values(|v: serde_json::Value| tree(v))
}

/// The member of an object with the given name; null where there is none, and
/// for anything that is not an object.
pub open spec fn json_member(json: Json, key: Seq<char>) -> Json {
    match json {
        Json::Object(members) => if members.contains_key(key) {
            members[key]
        } else {
            Json::Null
        },
        _ => Json::Null,
    }
}

/// The elements of an array.
pub open spec fn json_list(json: Json) -> Option<Seq<Json>> {
    match json {
        Json::Array(elements) => Some(elements),
        _ => None,
    }
}

/// The characters of a text.
pub open spec fn json_text(json: Json) -> Option<Seq<char>> {
    match json {
        Json::Text(s) => Some(s),
        _ => None,
    }
}

/// A number that counts something.
pub open spec fn json_count(json: Json) -> Option<u64> {
    match json {
        Json::Number(n) => n,
        _ => None,
    }
}

/// Reads a text with `serde_json::from_str`. What comes of it, the document or
/// the message of the error, depends on the text alone; which texts are
/// documents, and of what, is left to that crate.
#[verifier::external_body]
pub(crate) fn parse_json(text: &str) -> (r: Result<serde_json::Value, String>)
    ensures
        match r {
            Ok(value) => json_outcome(text@) == Ok::<Json, Seq<char>>(tree(value)),
            Err(message) => json_outcome(text@) == Err::<Json, Seq<char>>(message@),
        },
{
    serde_json::from_str(text).map_err(|e: serde_json::Error| e.to_string())
}

/// Indexes a document by a name (`Index<&str>` of `serde_json::Value`): the
/// member of an object, else null.
#[verifier::external_body]
pub(crate) fn member<'a>(value: &'a serde_json::Value, key: &str) -> (r: &'a serde_json::Value)
    ensures
        tree(*r) == json_member(tree(*value), key@),
{
    &value[key]
}

/// The elements of an array (`serde_json::Value::as_array`), `None` for
/// anything else.
#[verifier::external_body]
pub(crate) fn as_array<'a>(value: &'a serde_json::Value) -> (r: Option<
    &'a Vec<serde_json::Value>,
>)
    ensures
        json_list(tree(*value)) == (match r {
            Some(elements) => Some(trees(elements@)),
            None => None,
        }),
{
    value.as_array()
}

/// The characters of a text (`serde_json::Value::as_str`), `None` for anything
/// else.
#[verifier::external_body]
pub(crate) fn as_str<'a>(value: &'a serde_json::Value) -> (r: Option<&'a str>)
    ensures
        json_text(tree(*value)) == (match r {
            Some(s) => Some(s@),
            None => None,
        }),
{
    value.as_str()
}

/// A whole number from zero up that fits 64 bits (`serde_json::Value::as_u64`),
/// `None` for anything else.
#[verifier::external_body]
pub(crate) fn as_u64(value: &serde_json::Value) -> (r: Option<u64>)
    ensures
        r == json_count(tree(*value)),
{
    value.as_u64()
}

} // verus!
