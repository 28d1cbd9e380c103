use gnostr_query::extract::{extract_elements, extract_from, ExtractError};
use serde_json::Value;

const PERSON: &str = "{\"name\": \"John Doe\", \"age\": 30, \"city\": \"New York\", \
    \"is_active\": true, \"address\": {\"street\": \"123 Main St\", \"zip\": \"10001\"}}";

#[test]
fn chosen_keys_are_extracted() {
    let extracted = extract_elements(PERSON, &["name", "age", "address"]).unwrap();
    let mut address = serde_json::Map::new();
    address.insert("street".to_string(), Value::from("123 Main St"));
    address.insert("zip".to_string(), Value::from("10001"));
    let mut expected = serde_json::Map::new();
    expected.insert("name".to_string(), Value::from("John Doe"));
    expected.insert("age".to_string(), Value::from(30));
    expected.insert("address".to_string(), Value::Object(address));
    assert_eq!(extracted, Value::Object(expected));
}

#[test]
fn missing_keys_are_passed_over() {
    let extracted = extract_elements(PERSON, &["name", "nothing"]).unwrap();
    let mut expected = serde_json::Map::new();
    expected.insert("name".to_string(), Value::from("John Doe"));
    assert_eq!(extracted, Value::Object(expected));
}

#[test]
fn no_keys_give_an_empty_object() {
    assert_eq!(
        extract_elements(PERSON, &[]).unwrap(),
        Value::Object(serde_json::Map::new())
    );
    assert_eq!(
        extract_elements("{}", &["a"]).unwrap(),
        Value::Object(serde_json::Map::new())
    );
}

#[test]
fn repeated_keys_are_extracted_once() {
    let extracted = extract_elements(PERSON, &["age", "age"]).unwrap();
    let mut expected = serde_json::Map::new();
    expected.insert("age".to_string(), Value::from(30));
    assert_eq!(extracted, Value::Object(expected));
}

#[test]
fn what_is_no_object_is_refused() {
    for text in ["[1,2]", "\"text\"", "null", "3", "true"] {
        assert!(matches!(
            extract_elements(text, &["a"]),
            Err(ExtractError::NotAnObject)
        ));
    }
    assert!(matches!(
        extract_from(Value::from(3), &["a"]),
        Err(ExtractError::NotAnObject)
    ));
}

#[test]
fn what_is_no_json_is_refused() {
    for text in ["", "{", "{} x", "{\"a\":}", "nul"] {
        assert!(matches!(
            extract_elements(text, &["a"]),
            Err(ExtractError::InvalidJson(_))
        ));
    }
}

#[test]
fn extract_from_a_document() {
    let mut source = serde_json::Map::new();
    source.insert("a".to_string(), Value::from(1));
    source.insert("b".to_string(), Value::from("two"));
    source.insert("c".to_string(), Value::Null);
    let extracted = extract_from(Value::Object(source), &["c", "a"]).unwrap();
    let mut expected = serde_json::Map::new();
    expected.insert("a".to_string(), Value::from(1));
    expected.insert("c".to_string(), Value::Null);
    assert_eq!(extracted, Value::Object(expected));
}

#[test]
fn extraction_errors_describe_themselves() {
    assert_eq!(
        ExtractError::NotAnObject.message(),
        "Input is not a JSON object"
    );
    let failure = serde_json::from_str::<Value>("{").unwrap_err();
    let description = failure.to_string();
    match extract_elements("{", &[]) {
        Err(error) => assert_eq!(error.message(), description),
        Ok(value) => panic!("expected an error, got {value}"),
    }
}
