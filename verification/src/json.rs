//! JSON objects, built with serde_json.

use vstd::prelude::*;

verus! {

/// A JSON value.
pub enum Json {
    /// A string.
    Text(Seq<char>),
    /// An array.
    List(Seq<Json>),
    /// An object.
    Object(Map<Seq<char>, Json>),
    /// Null, a truth value or a number; which of them a code stands for is left open.
    Scalar(int),
}

/// `serde_json::Value`, a JSON value.
#[verifier::external_type_specification]
#[verifier::external_body]
pub struct ExValue(serde_json::Value);

/// `serde_json::Map`, the entries of a JSON object.
#[verifier::external_type_specification]
#[verifier::external_body]
#[verifier::reject_recursive_types(K)]
#[verifier::reject_recursive_types(V)]
pub struct ExObject<K, V>(serde_json::Map<K, V>);

/// `serde_json::Error`, why a JSON value was refused.
#[verifier::external_type_specification]
#[verifier::external_body]
pub struct ExError(serde_json::Error);

/// What a JSON value holds.
pub uninterp spec fn held(value: serde_json::Value) -> Json;

/// What the entries of a JSON object hold, by their keys.
pub uninterp spec fn entries(object: serde_json::Map<String, serde_json::Value>) -> Map<Seq<char>, Json>;

/// No keys at all.
pub open spec fn no_keys() -> Map<Seq<char>, Json> {
    Map::empty()
}

/// `serde_json::Map::new`: no entries.
#[verifier::external_body]
pub(crate) fn no_entries() -> (object: serde_json::Map<String, serde_json::Value>)
    ensures
        entries(object) == no_keys(),
{
    serde_json::Map::new()
}

/// `serde_json::Map::insert`: the key gets the value, in place of one that it has, and
/// the other keys keep theirs.
#[verifier::external_body]
pub(crate) fn insert(
    object: &mut serde_json::Map<String, serde_json::Value>,
    key: &str,
    value: serde_json::Value,
)
    ensures
        entries(*final(object)) == entries(*old(object)).insert(key@, held(value)),
{
    object.insert(key.to_string(), value);
}

/// `serde_json::Value::Object`: the object with these entries.
#[verifier::external_body]
pub(crate) fn object(content: serde_json::Map<String, serde_json::Value>) -> (value:
    serde_json::Value)
    ensures
        held(value) == Json::Object(entries(content)),
{
    serde_json::Value::Object(content)
}

/// `serde_json::Value::String`: the string with these characters.
#[verifier::external_body]
pub(crate) fn text(content: &str) -> (value: serde_json::Value)
    ensures
        held(value) == Json::Text(content@),
{
    serde_json::Value::String(content.to_string())
}

/// `serde_json::Value::Array`: the array of these values.
#[verifier::external_body]
pub(crate) fn list(content: Vec<serde_json::Value>) -> (value: serde_json::Value)
    ensures
        held(value) == Json::List(Seq::new(content@.len(), |i: int| held(content@[i]))),
{
    serde_json::Value::Array(content)
}

} // verus!
