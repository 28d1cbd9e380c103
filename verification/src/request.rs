//! From a filter to the text of the request.

use crate::error::QueryError;
use crate::filter::{build_filter, filter_entries, opt_text, well_formed, Dimensions, QueryDimensions};
use crate::json::{
    json_text, jsons_of, list_value, object_of, object_value, text_value, to_text, Json,
};
use serde_json::Value;
use vstd::prelude::*;
use vstd::string::*;

verus! {

/// The request envelope around a filter: the command, the subscription
/// identifier, and the filter object.
pub open spec fn request_json(filter: Map<Seq<char>, Json>) -> Json {
    Json::List(seq![Json::Text("REQ"@), Json::Text("gnostr-query"@), Json::Object(filter)])
}

/// The text of the request for a filter with the given entries.
pub open spec fn request_text(filter: Map<Seq<char>, Json>) -> Seq<char> {
    json_text(request_json(filter))
}

/// What becomes of an attempt to write the request as text: the text itself,
/// or [`QueryError::Encoding`] with the cause.
pub fn encoded(outcome: Result<String, serde_json::Error>) -> (r: Result<String, QueryError>)
    ensures
        outcome matches Ok(s) ==> r == Ok::<String, QueryError>(s),
        outcome matches Err(cause) ==> r == Err::<String, QueryError>(QueryError::Encoding(cause)),
{
    match outcome {
        Ok(s) => Ok(s),
        Err(cause) => Err(QueryError::Encoding(cause)),
    }
}

/// Wraps `filter` in the request envelope and writes it as JSON text.
///
/// This succeeds for every filter: an object of JSON values can always be
/// written.
pub fn encode_request(filter: serde_json::Map<String, Value>) -> (r: Result<String, QueryError>)
    ensures
        r matches Ok(s) && s@ == request_text(object_of(filter)),
{
    let mut parts: Vec<Value> = Vec::new();
    parts.push(text_value(String::from_str("REQ")));
    parts.push(text_value(String::from_str("gnostr-query")));
    parts.push(object_value(filter));
    assert(jsons_of(parts@) =~= seq![
        Json::Text("REQ"@),
        Json::Text("gnostr-query"@),
        Json::Object(object_of(filter)),
    ]);
    let envelope = list_value(parts);
    encoded(to_text(&envelope))
}

/// The text of an optional string slice.
pub open spec fn opt_str_text(o: Option<&str>) -> Option<Seq<char>> {
    match o {
        Some(s) => Some(s@),
        None => None,
    }
}

/// The dimensions that the arguments of [`build_gnostr_query`] describe.
pub open spec fn dimensions_of(
    authors: Option<&str>,
    ids: Option<&str>,
    limit: Option<i32>,
    generic: Option<(&str, &str)>,
    hashtag: Option<&str>,
    mentions: Option<&str>,
    references: Option<&str>,
    kinds: Option<&str>,
) -> Dimensions {
    Dimensions {
        authors: opt_str_text(authors),
        ids: opt_str_text(ids),
        limit: match limit {
            Some(n) => Some(n as int),
            None => None,
        },
        generic: match generic {
            Some((tag, values)) => Some((tag@, values@)),
            None => None,
        },
        hashtag: opt_str_text(hashtag),
        mentions: opt_str_text(mentions),
        references: opt_str_text(references),
        kinds: opt_str_text(kinds),
    }
}

/// An owned copy of an optional string slice.
fn owned(o: Option<&str>) -> (r: Option<String>)
    ensures
        opt_text(r) == opt_str_text(o),
{
    match o {
        Some(s) => Some(String::from_str(s)),
        None => None,
    }
}

/// Builds the request text for the given dimensions.
///
/// Fails, with [`QueryError::MalformedKinds`], exactly when `kinds` is present
/// and one of its pieces is not an integer literal. On every other input the
/// result is the text of the request for the filter that the dimensions
/// describe.
pub fn build_gnostr_query(
    authors: Option<&str>,
    ids: Option<&str>,
    limit: Option<i32>,
    generic: Option<(&str, &str)>,
    hashtag: Option<&str>,
    mentions: Option<&str>,
    references: Option<&str>,
    kinds: Option<&str>,
) -> (r: Result<String, QueryError>)
    ensures
        ({
            let d = dimensions_of(
                authors,
                ids,
                limit,
                generic,
                hashtag,
                mentions,
                references,
                kinds,
            );
            &&& well_formed(d) ==> (r matches Ok(s) && s@ == request_text(filter_entries(d)))
            &&& !well_formed(d) ==> (r matches Err(QueryError::MalformedKinds))
        }),
{
    let dims = QueryDimensions {
        authors: owned(authors),
        ids: owned(ids),
        limit,
        generic: match generic {
            Some((tag, values)) => Some((String::from_str(tag), String::from_str(values))),
            None => None,
        },
        hashtag: owned(hashtag),
        mentions: owned(mentions),
        references: owned(references),
        kinds: owned(kinds),
    };
    assert(dims@ == dimensions_of(
        authors,
        ids,
        limit,
        generic,
        hashtag,
        mentions,
        references,
        kinds,
    ));
    match build_filter(&dims) {
        Ok(filter) => encode_request(filter),
        Err(e) => Err(e),
    }
}

} // verus!
