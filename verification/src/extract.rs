//! Picks chosen entries out of a JSON object.

use crate::json::{
    error_text, into_object, json_of, object_get, object_insert, object_new, object_of,
    object_value, parse_value, parsed_json, value_clone, Json,
};
use serde_json::Value;
use vstd::prelude::*;
use vstd::string::*;

verus! {

/// Why nothing could be extracted.
#[derive(Debug)]
pub enum ExtractError {
    /// The text is not a JSON document; the cause is attached.
    InvalidJson(serde_json::Error),
    /// The document is not an object.
    NotAnObject,
}

impl ExtractError {
    /// A description of the error for the user.
    pub fn message(&self) -> (text: String)
        ensures
            self is NotAnObject ==> text@ == "Input is not a JSON object"@,
    {
        match self {
            ExtractError::InvalidJson(cause) => error_text(cause),
            ExtractError::NotAnObject => String::from_str("Input is not a JSON object"),
        }
    }
}

/// The texts of `keys`, as a set.
pub open spec fn key_set(keys: Seq<&str>) -> Set<Seq<char>> {
    Set::new(|k: Seq<char>| exists|i: int| 0 <= i < keys.len() && (#[trigger] keys[i])@ == k)
}

/// The entries of `source` whose key is among `keys`.
pub open spec fn chosen(source: Map<Seq<char>, Json>, keys: Seq<&str>) -> Map<Seq<char>, Json> {
    source.restrict(key_set(keys))
}

/// What extraction makes of a document with content `document`: an object
/// with the chosen entries, or nothing where the document is no object.
pub open spec fn extraction(document: Json, keys: Seq<&str>) -> Option<Json> {
    match document {
        Json::Object(entries) => Some(Json::Object(chosen(entries, keys))),
        _ => None,
    }
}

/// Picks the entries with the given keys out of `document`.
///
/// Keys that the object lacks are passed over. A document that is not an
/// object is refused.
pub fn extract_from(document: Value, keys: &[&str]) -> (r: Result<Value, ExtractError>)
    ensures
        r matches Ok(v) ==> extraction(json_of(document), keys@) == Some(json_of(v)),
        r matches Err(e) ==> e is NotAnObject && extraction(json_of(document), keys@) is None,
{
    let source = match into_object(document) {
        Some(source) => source,
        None => {
            return Err(ExtractError::NotAnObject);
        },
    };
    let mut extracted = object_new();
    let mut i: usize = 0;
    assert(object_of(extracted) =~= chosen(object_of(source), keys@.take(0)));
    while i < keys.len()
        invariant
            i <= keys.len(),
            object_of(extracted) == chosen(object_of(source), keys@.take(i as int)),
        decreases keys.len() - i,
    {
        let key = keys[i];
        let ghost before = object_of(extracted);
        match object_get(&source, key) {
            Some(value) => {
                object_insert(&mut extracted, String::from_str(key), value_clone(value));
            },
            None => {},
        }
        proof {
            let seen = keys@.take(i as int);
            let next = keys@.take(i + 1);
            assert(next[i as int] == key);
            assert forall|k: Seq<char>| key_set(next).contains(k) <==> key_set(seen).contains(k)
                || k == key@ by {
                if key_set(seen).contains(k) {
                    let j = choose|j: int| 0 <= j < seen.len() && (#[trigger] seen[j])@ == k;
                    assert(next[j]@ == k);
                }
                if key_set(next).contains(k) && k != key@ {
                    let j = choose|j: int| 0 <= j < next.len() && (#[trigger] next[j])@ == k;
                    assert(seen[j]@ == k);
                }
            }
            assert(object_of(extracted) =~= chosen(object_of(source), next));
        }
        i = i + 1;
    }
    assert(keys@.take(i as int) =~= keys@);
    Ok(object_value(extracted))
}

/// Reads `json_str` as a JSON document and picks the entries with the given
/// keys out of it.
pub fn extract_elements(json_str: &str, keys: &[&str]) -> (r: Result<Value, ExtractError>)
    ensures
        parsed_json(json_str@) is None <==> (r matches Err(ExtractError::InvalidJson(_))),
        parsed_json(json_str@) matches Some(document) ==> {
            &&& r matches Ok(v) ==> extraction(document, keys@) == Some(json_of(v))
            &&& r matches Err(e) ==> e is NotAnObject && extraction(document, keys@) is None
        },
{
    match parse_value(json_str) {
        Ok(document) => extract_from(document, keys),
        Err(cause) => Err(ExtractError::InvalidJson(cause)),
    }
}

} // verus!
