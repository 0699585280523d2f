use ministore::index::{check_magic, fields_with_path, item_not_found, require_schema_json};
use ministore::json::JsonValue;

#[test]
fn magic_value_is_checked() {
    assert!(check_magic(Some("ministore")).is_ok());
    assert_eq!(
        check_magic(None).unwrap_err().to_string(),
        "schema error: not a ministore database (missing magic)"
    );
    assert_eq!(
        check_magic(Some("sqlite")).unwrap_err().to_string(),
        "schema error: not a ministore database (invalid magic: sqlite)"
    );
}

#[test]
fn schema_metadata_must_be_present() {
    assert_eq!(require_schema_json(Some("{}".to_string())).unwrap(), "{}");
    assert_eq!(
        require_schema_json(None).unwrap_err().to_string(),
        "schema error: missing schema metadata"
    );
}

#[test]
fn missing_items_are_reported_by_path() {
    assert_eq!(item_not_found("/a/b").to_string(), "item not found: /a/b");
}

#[test]
fn fields_get_the_path_set() {
    let fields = JsonValue::Object(vec![
        ("path".to_string(), JsonValue::String("/old".to_string())),
        ("title".to_string(), JsonValue::String("T".to_string())),
    ]);
    let doc = fields_with_path("/new", fields).unwrap();
    assert_eq!(doc.to_json_string(), r#"{"path":"/new","title":"T"}"#);
    let fields = JsonValue::Object(vec![("z".to_string(), JsonValue::Bool(true))]);
    assert_eq!(fields_with_path("/p", fields).unwrap().to_json_string(), r#"{"path":"/p","z":true}"#);
    assert_eq!(
        fields_with_path("/p", JsonValue::Null).unwrap_err().to_string(),
        "schema error: fields must be a JSON object"
    );
}
