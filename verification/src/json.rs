//! JSON documents, as far as this library builds and reads them.
//!
//! Documents are held in `serde_json`'s own types. Verus does not look inside
//! them: what a document holds is named by [`json_of`] and [`object_of`], and
//! the functions of this module state, without proof, what each call into
//! `serde_json` does in terms of those names.

use serde_json::Value;
use vstd::prelude::*;

verus! {

/// The mathematical content of a JSON document.
///
/// Only integers, text, lists and objects are described. What [`json_of`] gives
/// for a document with other parts (null, booleans, fractions) is left open.
pub enum Json {
    /// A whole number.
    Int(int),
    /// A string.
    Text(Seq<char>),
    /// An array, in order.
    List(Seq<Json>),
    /// An object: each key once, with its value.
    Object(Map<Seq<char>, Json>),
}

/// `serde_json::Value`, carried through verified code as an opaque document.
#[verifier::external_type_specification]
#[verifier::external_body]
pub struct ExValue(serde_json::Value);

/// `serde_json::Map`, the collection behind a JSON object.
#[verifier::external_type_specification]
#[verifier::external_body]
#[verifier::reject_recursive_types(K)]
#[verifier::reject_recursive_types(V)]
pub struct ExObject<K, V>(serde_json::Map<K, V>);

/// `serde_json::Error`, which verified code hands on without looking inside.
#[verifier::external_type_specification]
#[verifier::external_body]
pub struct ExJsonError(serde_json::Error);

/// What the document `v` holds.
pub uninterp spec fn json_of(v: Value) -> Json;

/// The entries that the object `m` holds: each key with the content of its value.
pub uninterp spec fn object_of(m: serde_json::Map<String, Value>) -> Map<Seq<char>, Json>;

/// The compact JSON text that `serde_json::to_string` writes for a document
/// with content `j`.
pub uninterp spec fn json_text(j: Json) -> Seq<char>;

/// The entries of an object that has none.
pub open spec fn no_entries() -> Map<Seq<char>, Json> {
    Map::empty()
}

/// What `serde_json::from_str` makes of `text`: the content of the document
/// that it reads, or nothing where it reports an error.
pub uninterp spec fn parsed_json(text: Seq<char>) -> Option<Json>;

/// The contents of a sequence of documents, item by item.
pub open spec fn jsons_of(items: Seq<Value>) -> Seq<Json> {
    items.map_values(|v: Value| json_of(v))
}

/// Calls `Value::from` on a `String`, which gives `Value::String` of it.
#[verifier::external_body]
pub(crate) fn text_value(s: String) -> (v: Value)
    ensures
        json_of(v) == Json::Text(s@),
{
    Value::from(s)
}

/// Calls `Value::from` on an `i64`, which gives `Value::Number` of it.
#[verifier::external_body]
pub(crate) fn int_value(n: i64) -> (v: Value)
    ensures
        json_of(v) == Json::Int(n as int),
{
    Value::from(n)
}

/// Calls `Value::from` on a `Vec<Value>`, which gives `Value::Array` of the
/// same items in the same order.
#[verifier::external_body]
pub(crate) fn list_value(items: Vec<Value>) -> (v: Value)
    ensures
        json_of(v) == Json::List(jsons_of(items@)),
{
    Value::from(items)
}

/// Calls `Value::from` on a `serde_json::Map`, which gives `Value::Object` of it.
#[verifier::external_body]
pub(crate) fn object_value(m: serde_json::Map<String, Value>) -> (v: Value)
    ensures
        json_of(v) == Json::Object(object_of(m)),
{
    Value::from(m)
}

/// Calls `serde_json::Map::new`, which makes an object without entries.
#[verifier::external_body]
pub(crate) fn object_new() -> (m: serde_json::Map<String, Value>)
    ensures
        object_of(m) == no_entries(),
{
    serde_json::Map::new()
}

/// Calls `serde_json::Map::insert`: afterwards the key `k` holds `v`, whether
/// or not the key was present before, and every other entry is as it was. The
/// value that the call hands back, the one replaced, is dropped.
#[verifier::external_body]
pub(crate) fn object_insert(object: &mut serde_json::Map<String, Value>, k: String, v: Value)
    ensures
        object_of(*final(object)) == object_of(*old(object)).insert(k@, json_of(v)),
{
    object.insert(k, v);
}

/// Calls `serde_json::to_string` on a document. The call succeeds, and its
/// text is the one that [`json_text`] names for the document's content.
///
/// Success is claimed because a `Value` gives the call no way to fail: it
/// writes itself with the serializer's own methods, its keys are strings, and
/// the serializer reports only the errors of its writer, which here is a
/// `Vec<u8>`.
#[verifier::external_body]
pub(crate) fn to_text(v: &Value) -> (r: Result<String, serde_json::Error>)
    ensures
        r is Ok,
        r matches Ok(s) ==> s@ == json_text(json_of(*v)),
{
    serde_json::to_string(v)
}

/// Calls `to_string` on a `serde_json::Error`: the error's own description,
/// of which nothing is claimed.
#[verifier::external_body]
pub(crate) fn error_text(e: &serde_json::Error) -> (text: String) {
    e.to_string()
}

/// Calls `serde_json::from_str` for a `Value`. Whether the call succeeds, and
/// with what content, is what [`parsed_json`] names for the text.
#[verifier::external_body]
pub(crate) fn parse_value(text: &str) -> (r: Result<Value, serde_json::Error>)
    ensures
        r matches Ok(v) ==> parsed_json(text@) == Some(json_of(v)),
        r is Err ==> parsed_json(text@) is None,
{
    serde_json::from_str(text)
}

/// Tells `Value::Object` from the other variants and hands out its map.
#[verifier::external_body]
pub(crate) fn into_object(v: Value) -> (r: Option<serde_json::Map<String, Value>>)
    ensures
        r matches Some(m) ==> json_of(v) == Json::Object(object_of(m)),
        r is None ==> !(json_of(v) is Object),
{
    match v {
        Value::Object(m) => Some(m),
        _ => None,
    }
}

/// Calls `serde_json::Map::get`: the value under `key`, if the object has
/// that key.
#[verifier::external_body]
pub(crate) fn object_get<'a>(m: &'a serde_json::Map<String, Value>, key: &str) -> (r: Option<
    &'a Value,
>)
    ensures
        r is Some <==> object_of(*m).contains_key(key@),
        r matches Some(v) ==> json_of(*v) == object_of(*m)[key@],
{
    m.get(key)
}

/// Calls `Value::clone`: a document with the same content.
#[verifier::external_body]
pub(crate) fn value_clone(v: &Value) -> (copy: Value)
    ensures
        json_of(copy) == json_of(*v),
{
    v.clone()
}

} // verus!
