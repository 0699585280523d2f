use ministore::json::{JsonNumber, JsonValue};
use ministore::put::{parse_date_to_epoch_ms, prepare_put};
use ministore::schema::{FieldSpec, Schema};
use ministore::write::{doc_freq_changes, fts_row, is_no_such_table_search, present_statements, value_statements};
use ministore::query::planner::SqlValue;

fn jv(v: &serde_json::Value) -> JsonValue {
    match v {
        serde_json::Value::Null => JsonValue::Null,
        serde_json::Value::Bool(b) => JsonValue::Bool(*b),
        serde_json::Value::Number(n) => JsonValue::Number(JsonNumber {
            text: n.to_string(),
            float_text: n.as_f64().unwrap().to_string(),
        }),
        serde_json::Value::String(s) => JsonValue::String(s.clone()),
        serde_json::Value::Array(a) => JsonValue::Array(a.iter().map(jv).collect()),
        serde_json::Value::Object(o) => JsonValue::Object(o.iter().map(|(k, x)| (k.clone(), jv(x))).collect()),
    }
}

fn doc(text: &str) -> JsonValue {
    jv(&serde_json::from_str::<serde_json::Value>(text).unwrap())
}

#[test]
fn test_prepare_put_basic() {
    let mut schema = Schema::new();
    schema.add_field("title", FieldSpec::text(Some(1.0_f64.to_string())));
    schema.add_field("tags", FieldSpec::keyword(true));
    schema.add_field("priority", FieldSpec::number(false));
    let d = doc(r#"{"path": "/test/doc", "title": "Test Document", "tags": ["a", "b"], "priority": 5}"#);
    let prep = prepare_put(&schema, d).unwrap();
    assert_eq!(prep.path, "/test/doc");
    assert_eq!(prep.text_cols.len(), 1);
    assert_eq!(prep.text_cols[0], Some("Test Document".to_string()));
    assert_eq!(prep.keyword_fields.len(), 1);
    assert_eq!(prep.number_fields.len(), 1);
}

#[test]
fn test_parse_date() {
    let epoch = parse_date_to_epoch_ms("2024-01-15").unwrap();
    assert!(epoch > 0);
    let epoch2 = parse_date_to_epoch_ms("2024-01-15T10:30:00Z").unwrap();
    assert!(epoch2 > epoch);
}

// Further behaviour of document preparation.

#[test]
fn documents_need_a_path() {
    let schema = {
        let mut s = Schema::new();
        s.add_field("tag", FieldSpec::keyword(false));
        s
    };
    let err = prepare_put(&schema, doc(r#"{"tag": "x"}"#)).unwrap_err();
    assert_eq!(err.to_string(), "schema error: document must have 'path' string field");
    let err = prepare_put(&schema, doc(r#"{"path": ""}"#)).unwrap_err();
    assert_eq!(err.to_string(), "schema error: path cannot be empty");
    let err = prepare_put(&schema, doc(r#"[1]"#)).unwrap_err();
    assert_eq!(err.to_string(), "schema error: document must be a JSON object");
}

#[test]
fn values_are_coerced_by_field_type() {
    let mut schema = Schema::new();
    schema.add_field("flag", FieldSpec::bool());
    schema.add_field("n", FieldSpec::number(true));
    schema.add_field("tag", FieldSpec::keyword(false));
    schema.add_field("when", FieldSpec::date(false));
    let d = doc(r#"{"path": "/x", "flag": "true", "n": ["2.5", 3], "tag": 1.5, "when": "1970-01-02"}"#);
    let prep = prepare_put(&schema, d).unwrap();
    assert_eq!(prep.bool_fields, vec![("flag".to_string(), true)]);
    assert_eq!(prep.number_fields, vec![("n".to_string(), vec!["2.5".to_string(), "3".to_string()])]);
    assert_eq!(prep.keyword_fields, vec![("tag".to_string(), vec!["1.5".to_string()])]);
    assert_eq!(prep.date_fields, vec![("when".to_string(), vec![86_400_000])]);
    assert_eq!(prep.present_fields, vec!["flag".to_string(), "n".to_string(), "tag".to_string(), "when".to_string()]);
}

#[test]
fn type_errors_name_the_field() {
    let mut schema = Schema::new();
    schema.add_field("n", FieldSpec::number(false));
    let err = prepare_put(&schema, doc(r#"{"path": "/x", "n": "abc"}"#)).unwrap_err();
    assert_eq!(err.to_string(), "type mismatch for field 'n': invalid number format in string: abc");
    let err = prepare_put(&schema, doc(r#"{"path": "/x", "n": [1, 2]}"#)).unwrap_err();
    assert_eq!(
        err.to_string(),
        "type mismatch for field 'n': field is not multi-valued but received array with multiple values"
    );
}

#[test]
fn float_texts_follow_rust_parsing() {
    let mut schema = Schema::new();
    schema.add_field("n", FieldSpec::number(true));
    for ok in ["1", "-1.5", "+.5", "5.", "1e10", "1E-3", "inf", "-Infinity", "NaN"] {
        let d = doc(&format!(r#"{{"path": "/x", "n": "{}"}}"#, ok));
        assert!(prepare_put(&schema, d).is_ok(), "{} should be accepted", ok);
        assert!(ok.parse::<f64>().is_ok());
    }
    for bad in ["", ".", "1e", "e5", " 1", "1.2.3", "infx", "0x10"] {
        let d = doc(&format!(r#"{{"path": "/x", "n": "{}"}}"#, bad));
        assert!(prepare_put(&schema, d).is_err(), "{} should be refused", bad);
        assert!(bad.parse::<f64>().is_err());
    }
}

#[test]
fn stored_json_is_compact() {
    let schema = {
        let mut s = Schema::new();
        s.add_field("tag", FieldSpec::keyword(false));
        s
    };
    let prep = prepare_put(&schema, doc(r#"{"path": "/x", "b": [1, true, null], "a": "q\""}"#)).unwrap();
    assert_eq!(prep.data_json, r#"{"a":"q\"","b":[1,true,null],"path":"/x"}"#);
}

#[test]
fn doc_freq_moves_with_keyword_values() {
    let (inc, dec) = doc_freq_changes(&vec![1, 2, 3], &vec![3, 4]);
    assert_eq!(inc, vec![4]);
    assert_eq!(dec, vec![1, 2]);
}

#[test]
fn missing_search_table_is_recognised() {
    assert!(is_no_such_table_search(true, Some("no such table: search")));
    assert!(!is_no_such_table_search(false, Some("no such table: search")));
    assert!(!is_no_such_table_search(true, Some("no such table: items")));
    assert!(!is_no_such_table_search(true, None));
}

#[test]
fn index_rows_of_a_document() {
    let mut schema = Schema::new();
    schema.add_field("body", FieldSpec::text(None));
    schema.add_field("flag", FieldSpec::bool());
    schema.add_field("n", FieldSpec::number(true));
    let prep = prepare_put(&schema, doc(r#"{"path": "/x", "flag": false, "n": [1, 2]}"#)).unwrap();
    let present = present_statements(9, &prep);
    assert_eq!(present.len(), 2);
    assert_eq!(present[0].params, vec![SqlValue::Integer(9), SqlValue::Text("flag".to_string())]);
    let values = value_statements(9, &prep);
    assert_eq!(values.len(), 3);
    assert_eq!(values[1].params, vec![SqlValue::Integer(9), SqlValue::Text("n".to_string()), SqlValue::Real("2".to_string())]);
    assert_eq!(values[2].params, vec![SqlValue::Integer(9), SqlValue::Text("flag".to_string()), SqlValue::Integer(0)]);
    let fts = fts_row(&schema, 9, &prep).unwrap();
    assert_eq!(fts.sql, "INSERT INTO search(rowid, body) VALUES(?, ?)");
    assert_eq!(fts.params, vec![SqlValue::Integer(9), SqlValue::Null]);
}

#[test]
fn refusals_are_schema_errors_for_the_path_and_type_mismatches_otherwise() {
    let mut schema = Schema::new();
    schema.add_field("n", FieldSpec::number(false));
    schema.add_field("t", FieldSpec::text(None));
    let e = prepare_put(&schema, doc(r#"[1]"#)).unwrap_err();
    assert!(e.to_string().starts_with("schema error: "));
    let e = prepare_put(&schema, doc(r#"{"path": ""}"#)).unwrap_err();
    assert!(e.to_string().starts_with("schema error: "));
    let e = prepare_put(&schema, doc(r#"{"path": "/a", "n": [1, 2]}"#)).unwrap_err();
    assert!(e.to_string().starts_with("type mismatch for field 'n'"));
    let e = prepare_put(&schema, doc(r#"{"path": "/a", "t": 3}"#)).unwrap_err();
    assert!(e.to_string().starts_with("type mismatch for field 't'"));
}

#[test]
fn mistyped_values_are_refused() {
    let mut schema = Schema::new();
    schema.add_field("flag", FieldSpec::bool());
    schema.add_field("k", FieldSpec::keyword(false));
    let e = prepare_put(&schema, doc(r#"{"path": "/a", "flag": "maybe"}"#)).unwrap_err();
    assert_eq!(e.to_string(), "type mismatch for field 'flag': expected boolean");
    let e = prepare_put(&schema, doc(r#"{"path": "/a", "k": ["x", "y"]}"#)).unwrap_err();
    assert!(e.to_string().starts_with("type mismatch for field 'k'"));
    assert!(prepare_put(&schema, doc(r#"{"path": "/a", "flag": "true", "k": ["x"]}"#)).is_ok());
}
