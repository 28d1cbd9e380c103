use gnostr_query::error::QueryError;
use gnostr_query::filter::{build_filter, parse_kinds, QueryDimensions};
use gnostr_query::request::{build_gnostr_query, encode_request, encoded};
use serde_json::Value;

fn texts(items: &[&str]) -> Value {
    Value::Array(items.iter().map(|s| Value::String(s.to_string())).collect())
}

fn ints(items: &[i64]) -> Value {
    Value::Array(items.iter().map(|n| Value::from(*n)).collect())
}

#[test]
fn authors_alone_give_one_entry() {
    let mut dims = QueryDimensions::new();
    dims.authors = Some("a,b,c".to_string());
    let filter = build_filter(&dims).unwrap();
    assert_eq!(filter.len(), 1);
    assert_eq!(filter.get("authors"), Some(&texts(&["a", "b", "c"])));
}

#[test]
fn malformed_kinds_are_refused() {
    let mut dims = QueryDimensions::new();
    dims.kinds = Some("1,x,3".to_string());
    assert!(matches!(build_filter(&dims), Err(QueryError::MalformedKinds)));
    assert!(matches!(
        build_gnostr_query(None, None, None, None, None, None, None, Some("1,x,3")),
        Err(QueryError::MalformedKinds)
    ));
}

#[test]
fn malformed_kinds_are_refused_whatever_else_is_set() {
    assert!(matches!(
        build_gnostr_query(
            Some("a"),
            Some("b"),
            Some(7),
            Some(("t", "x")),
            Some("h"),
            Some("m"),
            Some("r"),
            Some("1,x,3")
        ),
        Err(QueryError::MalformedKinds)
    ));
}

#[test]
fn nothing_set_gives_an_empty_filter() {
    let filter = build_filter(&QueryDimensions::new()).unwrap();
    assert!(filter.is_empty());
    assert_eq!(
        encode_request(filter).unwrap(),
        "[\"REQ\",\"gnostr-query\",{}]"
    );
    assert_eq!(
        build_gnostr_query(None, None, None, None, None, None, None, None).unwrap(),
        "[\"REQ\",\"gnostr-query\",{}]"
    );
}

#[test]
fn generic_tag_is_filed_under_its_key() {
    let mut dims = QueryDimensions::new();
    dims.generic = Some(("t".to_string(), "foo,bar".to_string()));
    let filter = build_filter(&dims).unwrap();
    assert_eq!(filter.len(), 1);
    assert_eq!(filter.get("#t"), Some(&texts(&["foo", "bar"])));
}

#[test]
fn hashtag_replaces_generic_tag_t() {
    let mut dims = QueryDimensions::new();
    dims.generic = Some(("t".to_string(), "foo,bar".to_string()));
    dims.hashtag = Some("baz".to_string());
    let filter = build_filter(&dims).unwrap();
    assert_eq!(filter.len(), 1);
    assert_eq!(filter.get("#t"), Some(&texts(&["baz"])));
}

#[test]
fn mentions_and_references_replace_generic_tags_p_and_e() {
    let mut dims = QueryDimensions::new();
    dims.generic = Some(("p".to_string(), "old".to_string()));
    dims.mentions = Some("m1,m2".to_string());
    let filter = build_filter(&dims).unwrap();
    assert_eq!(filter.len(), 1);
    assert_eq!(filter.get("#p"), Some(&texts(&["m1", "m2"])));

    let mut dims = QueryDimensions::new();
    dims.generic = Some(("e".to_string(), "old".to_string()));
    dims.references = Some("r1".to_string());
    let filter = build_filter(&dims).unwrap();
    assert_eq!(filter.len(), 1);
    assert_eq!(filter.get("#e"), Some(&texts(&["r1"])));
}

#[test]
fn generic_tag_beside_reserved_tags() {
    let mut dims = QueryDimensions::new();
    dims.generic = Some(("d".to_string(), "x,y".to_string()));
    dims.hashtag = Some("h".to_string());
    let filter = build_filter(&dims).unwrap();
    assert_eq!(filter.len(), 2);
    assert_eq!(filter.get("#d"), Some(&texts(&["x", "y"])));
    assert_eq!(filter.get("#t"), Some(&texts(&["h"])));
}

#[test]
fn every_dimension_is_filed() {
    let dims = QueryDimensions {
        authors: Some("a1,a2".to_string()),
        ids: Some("i1".to_string()),
        limit: Some(25),
        generic: Some(("r".to_string(), "g1,g2".to_string())),
        hashtag: Some("h1".to_string()),
        mentions: Some("m1".to_string()),
        references: Some("e1,e2".to_string()),
        kinds: Some("1,30023,-4".to_string()),
    };
    let filter = build_filter(&dims).unwrap();
    let mut expected = serde_json::Map::new();
    expected.insert("authors".to_string(), texts(&["a1", "a2"]));
    expected.insert("ids".to_string(), texts(&["i1"]));
    expected.insert("limit".to_string(), Value::from(25));
    expected.insert("#r".to_string(), texts(&["g1", "g2"]));
    expected.insert("#t".to_string(), texts(&["h1"]));
    expected.insert("#p".to_string(), texts(&["m1"]));
    expected.insert("#e".to_string(), texts(&["e1", "e2"]));
    expected.insert("kinds".to_string(), ints(&[1, 30023, -4]));
    assert_eq!(filter, expected);
}

#[test]
fn request_text_of_every_dimension() {
    let text = build_gnostr_query(
        Some("a1,a2"),
        Some("i1"),
        Some(25),
        Some(("r", "g1,g2")),
        Some("h1"),
        Some("m1"),
        Some("e1,e2"),
        Some("1,30023,-4"),
    )
    .unwrap();
    assert_eq!(
        text,
        "[\"REQ\",\"gnostr-query\",{\"#e\":[\"e1\",\"e2\"],\"#p\":[\"m1\"],\"#r\":[\"g1\",\"g2\"],\"#t\":[\"h1\"],\"authors\":[\"a1\",\"a2\"],\"ids\":[\"i1\"],\"kinds\":[1,30023,-4],\"limit\":25}]"
    );
}

#[test]
fn request_text_of_authors() {
    assert_eq!(
        build_gnostr_query(Some("a,b,c"), None, None, None, None, None, None, None).unwrap(),
        "[\"REQ\",\"gnostr-query\",{\"authors\":[\"a\",\"b\",\"c\"]}]"
    );
}

#[test]
fn request_text_escapes_quotes() {
    assert_eq!(
        build_gnostr_query(None, Some("a\"b"), None, None, None, None, None, None).unwrap(),
        "[\"REQ\",\"gnostr-query\",{\"ids\":[\"a\\\"b\"]}]"
    );
}

#[test]
fn empty_text_gives_one_empty_piece() {
    let mut dims = QueryDimensions::new();
    dims.authors = Some(String::new());
    let filter = build_filter(&dims).unwrap();
    assert_eq!(filter.get("authors"), Some(&texts(&[""])));
    assert_eq!(
        build_gnostr_query(None, None, None, None, Some(""), None, None, None).unwrap(),
        "[\"REQ\",\"gnostr-query\",{\"#t\":[\"\"]}]"
    );
}

#[test]
fn empty_kinds_are_malformed() {
    assert!(matches!(
        build_gnostr_query(None, None, None, None, None, None, None, Some("")),
        Err(QueryError::MalformedKinds)
    ));
    assert!(matches!(
        build_gnostr_query(None, None, None, None, None, None, None, Some("1,")),
        Err(QueryError::MalformedKinds)
    ));
    assert!(matches!(
        build_gnostr_query(None, None, None, None, None, None, None, Some("1, 2")),
        Err(QueryError::MalformedKinds)
    ));
}

#[test]
fn limit_is_filed_as_given() {
    for limit in [0, -5, 500, i32::MAX, i32::MIN] {
        let mut dims = QueryDimensions::new();
        dims.limit = Some(limit);
        let filter = build_filter(&dims).unwrap();
        assert_eq!(filter.len(), 1);
        assert_eq!(filter.get("limit"), Some(&Value::from(limit)));
    }
    assert_eq!(
        build_gnostr_query(None, None, Some(-5), None, None, None, None, None).unwrap(),
        "[\"REQ\",\"gnostr-query\",{\"limit\":-5}]"
    );
}

#[test]
fn kinds_are_filed_as_integers() {
    let mut dims = QueryDimensions::new();
    dims.kinds = Some("+7,0,-9223372036854775808,9223372036854775807".to_string());
    let filter = build_filter(&dims).unwrap();
    assert_eq!(
        filter.get("kinds"),
        Some(&ints(&[7, 0, i64::MIN, i64::MAX]))
    );
}

#[test]
fn parse_kinds_reads_every_piece() {
    assert_eq!(parse_kinds("1,2,3"), Some(vec![1, 2, 3]));
    assert_eq!(parse_kinds("42"), Some(vec![42]));
    assert_eq!(parse_kinds("1,x,3"), None);
    assert_eq!(parse_kinds(""), None);
    assert_eq!(parse_kinds("9223372036854775808"), None);
}

#[test]
fn ids_force_a_limit_of_one() {
    let mut dims = QueryDimensions::new();
    dims.ids = Some("abc123".to_string());
    dims.limit = Some(500);
    assert_eq!(dims.effective_limit(), Some(1));
    dims.limit = None;
    assert_eq!(dims.effective_limit(), Some(1));
    dims.limit = Some(0);
    assert_eq!(dims.effective_limit(), Some(1));
}

#[test]
fn without_ids_the_limit_stands() {
    let mut dims = QueryDimensions::new();
    dims.authors = Some("abc123".to_string());
    dims.limit = Some(500);
    assert_eq!(dims.effective_limit(), Some(500));
    dims.limit = None;
    assert_eq!(dims.effective_limit(), None);
}

#[test]
fn ids_keep_the_requested_limit_in_the_filter() {
    let mut dims = QueryDimensions::new();
    dims.ids = Some("abc123".to_string());
    dims.limit = Some(500);
    let filter = build_filter(&dims).unwrap();
    assert_eq!(filter.get("limit"), Some(&Value::from(500)));
    assert_eq!(filter.get("ids"), Some(&texts(&["abc123"])));
}

#[test]
fn encoded_maps_the_outcome() {
    assert_eq!(encoded(Ok("x".to_string())).unwrap(), "x");
    let failure = serde_json::from_str::<Value>("{").unwrap_err();
    let description = failure.to_string();
    match encoded(Err(failure)) {
        Err(QueryError::Encoding(cause)) => assert_eq!(cause.to_string(), description),
        other => panic!("expected an encoding error, got {other:?}"),
    }
}

#[test]
fn encode_request_wraps_any_filter() {
    let mut filter = serde_json::Map::new();
    filter.insert("k".to_string(), Value::Null);
    assert_eq!(
        encode_request(filter).unwrap(),
        "[\"REQ\",\"gnostr-query\",{\"k\":null}]"
    );
}

#[test]
fn building_twice_gives_the_same_filter() {
    let mut dims = QueryDimensions::new();
    dims.authors = Some("a,b".to_string());
    dims.kinds = Some("1".to_string());
    assert_eq!(build_filter(&dims).unwrap(), build_filter(&dims).unwrap());
}

#[test]
fn errors_describe_themselves() {
    assert_eq!(
        QueryError::MalformedKinds.message(),
        "Error parsing kinds. Ensure they are integers."
    );
    let failure = serde_json::from_str::<Value>("{").unwrap_err();
    let description = failure.to_string();
    assert_eq!(QueryError::Encoding(failure).message(), description);
}

#[test]
fn default_dimensions_set_nothing() {
    let dims = QueryDimensions::default();
    assert!(build_filter(&dims).unwrap().is_empty());
    assert_eq!(dims.effective_limit(), None);
}
