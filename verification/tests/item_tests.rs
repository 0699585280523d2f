use ministore::item::ItemDoc;
use ministore::json::{JsonNumber, JsonValue};

fn jv(v: &serde_json::Value) -> JsonValue {
    match v {
        serde_json::Value::Null => JsonValue::Null,
        serde_json::Value::Bool(b) => JsonValue::Bool(*b),
        serde_json::Value::Number(n) => JsonValue::Number(JsonNumber {
            text: n.to_string(),
            float_text: n.as_f64().unwrap().to_string(),
        }),
        serde_json::Value::String(s) => JsonValue::String(s.clone()),
        serde_json::Value::Array(a) => JsonValue::Array(a.iter().map(jv).collect()),
        serde_json::Value::Object(o) => JsonValue::Object(o.iter().map(|(k, x)| (k.clone(), jv(x))).collect()),
    }
}

fn doc(text: &str) -> JsonValue {
    jv(&serde_json::from_str::<serde_json::Value>(text).unwrap())
}

#[test]
fn test_item_doc_from_json_valid() {
    let json = doc(r#"{"path": "/docs/test", "title": "Test Document", "tags": ["a", "b"]}"#);
    let d = ItemDoc::from_json(json).unwrap();
    assert_eq!(d.path, "/docs/test");
}

#[test]
fn test_item_doc_from_json_missing_path() {
    let json = doc(r#"{"title": "Test Document"}"#);
    assert!(ItemDoc::from_json(json).is_err());
}

#[test]
fn test_item_doc_from_json_empty_path() {
    let json = doc(r#"{"path": "", "title": "Test Document"}"#);
    assert!(ItemDoc::from_json(json).is_err());
}

#[test]
fn test_item_doc_from_json_not_object() {
    let json = doc(r#""just a string""#);
    assert!(ItemDoc::from_json(json).is_err());
}

#[test]
fn test_item_doc_to_storage_json() {
    let json = doc(r#"{"path": "/docs/test", "title": "Test"}"#);
    let d = ItemDoc::from_json(json).unwrap();
    let storage = d.to_storage_json();
    assert_eq!(storage.get("path").unwrap().as_str().unwrap(), "/docs/test");
    assert_eq!(storage.get("title").unwrap().as_str().unwrap(), "Test");
}

// Further behaviour of items and JSON values.

#[test]
fn storage_json_sets_path_in_key_order() {
    let d = ItemDoc { path: "/p".to_string(), fields: doc(r#"{"z": 1, "a": 2}"#) };
    assert_eq!(d.to_storage_json().to_json_string(), r#"{"a":2,"path":"/p","z":1}"#);
    let not_object = ItemDoc { path: "/p".to_string(), fields: doc("[1]") };
    assert_eq!(not_object.to_storage_json().to_json_string(), r#"{"path":"/p"}"#);
}

#[test]
fn item_errors_say_what_is_missing() {
    let err = ItemDoc::from_json(doc("3")).unwrap_err();
    assert_eq!(err.to_string(), "schema error: item must be a JSON object");
    let err = ItemDoc::from_json(doc(r#"{"path": 3}"#)).unwrap_err();
    assert_eq!(err.to_string(), "schema error: item must have a 'path' string field");
}

#[test]
fn pretty_json_matches_serde() {
    let text = r#"{"a": [1, {"b": "x"}, []], "c": {}, "d": null}"#;
    let v: serde_json::Value = serde_json::from_str(text).unwrap();
    assert_eq!(jv(&v).to_json_pretty(), serde_json::to_string_pretty(&v).unwrap());
    assert_eq!(jv(&v).to_json_string(), serde_json::to_string(&v).unwrap());
}

#[test]
fn storage_json_keeps_every_member_of_a_valid_document() {
    let text = r#"{"b":[1,2],"path":"/docs/x","title":"T"}"#;
    let d = ItemDoc::from_json(doc(text)).unwrap();
    assert_eq!(d.to_storage_json().to_json_string(), text);
}

#[test]
fn strings_are_quoted_and_escaped_as_json() {
    let v = JsonValue::String("say \"hi\"\n\\ é".to_string());
    assert_eq!(v.to_json_string(), "\"say \\\"hi\\\"\\n\\\\ é\"");
}

#[test]
fn control_characters_are_escaped_as_serde_json_does() {
    let s = "a\u{1}b\u{8}\u{c}\u{1f}\u{7f}";
    let v = JsonValue::String(s.to_string());
    assert_eq!(v.to_json_string(), serde_json::to_string(s).unwrap());
    assert_eq!(v.to_json_string(), "\"a\\u0001b\\b\\f\\u001f\u{7f}\"");
}
