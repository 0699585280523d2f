use ministore::fts::{build_fts_ddl, check_fts_columns, plan_schema_change};
use ministore::schema::{FieldSpec, FieldType, Schema};

#[test]
fn test_schema_validation_empty() {
    let schema = Schema::new();
    assert!(schema.validate().is_err());
}

#[test]
fn test_schema_validation_valid() {
    let mut schema = Schema::new();
    schema.add_field("title", FieldSpec::text(Some(3.0_f64.to_string())));
    schema.add_field("tags", FieldSpec::keyword(true));
    schema.add_field("priority", FieldSpec::number(false));
    assert!(schema.validate().is_ok());
}

#[test]
fn test_schema_validation_invalid_name() {
    let mut schema = Schema::new();
    schema.add_field("123invalid", FieldSpec::text(None));
    assert!(schema.validate().is_err());
}

#[test]
fn test_schema_validation_reserved_name() {
    let mut schema = Schema::new();
    schema.add_field("path", FieldSpec::text(None));
    assert!(schema.validate().is_err());
}

#[test]
fn test_schema_validation_weight_on_non_text() {
    let mut schema = Schema::new();
    schema.add_field(
        "priority",
        FieldSpec { field_type: FieldType::Number, multi: false, weight: Some(2.0_f64.to_string()) },
    );
    assert!(schema.validate().is_err());
}

#[test]
fn test_schema_validation_negative_weight() {
    let mut schema = Schema::new();
    schema.add_field("title", FieldSpec::text(Some((-1.0_f64).to_string())));
    assert!(schema.validate().is_err());
}

#[test]
fn test_text_fields_in_order() {
    let mut schema = Schema::new();
    schema.add_field("content", FieldSpec::text(Some(1.0_f64.to_string())));
    schema.add_field("title", FieldSpec::text(Some(3.0_f64.to_string())));
    schema.add_field("tags", FieldSpec::keyword(true));
    let text_fields = schema.text_fields_in_order();
    assert_eq!(text_fields.len(), 2);
    assert_eq!(text_fields[0], ("content".to_string(), 1.0_f64.to_string()));
    assert_eq!(text_fields[1], ("title".to_string(), 3.0_f64.to_string()));
}

#[test]
fn test_build_fts_ddl() {
    let mut schema = Schema::new();
    schema.add_field("title", FieldSpec::text(Some(3.0_f64.to_string())));
    schema.add_field("content", FieldSpec::text(Some(1.0_f64.to_string())));
    let ddl = build_fts_ddl(&schema).unwrap();
    assert!(ddl.contains("CREATE VIRTUAL TABLE"));
    assert!(ddl.contains("content, title"));
    assert!(ddl.contains("fts5"));
}

#[test]
fn test_build_fts_ddl_no_text_fields() {
    let mut schema = Schema::new();
    schema.add_field("tags", FieldSpec::keyword(true));
    assert!(build_fts_ddl(&schema).is_err());
}

// Further behaviour of schemas.

#[test]
fn adding_a_field_twice_keeps_the_last_spec() {
    let mut schema = Schema::new();
    schema.add_field("tag", FieldSpec::keyword(false));
    schema.add_field("tag", FieldSpec::keyword(true));
    assert_eq!(schema.len(), 1);
    assert!(schema.get("tag").unwrap().multi);
    assert!(schema.has_field("tag"));
    assert!(!schema.has_field("other"));
}

#[test]
fn fields_are_kept_in_name_order() {
    let mut schema = Schema::new();
    schema.add_field("b", FieldSpec::bool());
    schema.add_field("a", FieldSpec::keyword(false));
    schema.add_field("c", FieldSpec::date(false));
    let names: Vec<&str> = schema.fields().iter().map(|(n, _)| n.as_str()).collect();
    assert_eq!(names, vec!["a", "b", "c"]);
}

#[test]
fn zero_weight_is_refused() {
    let mut schema = Schema::new();
    schema.add_field("title", FieldSpec::text(Some(0.0_f64.to_string())));
    let err = schema.validate().unwrap_err();
    assert_eq!(err.to_string(), "schema error: weight for field 'title' must be positive");
}

#[test]
fn fts_columns_must_match_text_fields() {
    let mut schema = Schema::new();
    schema.add_field("title", FieldSpec::text(None));
    schema.add_field("body", FieldSpec::text(None));
    let ok = vec!["body".to_string(), "title".to_string(), "search_config".to_string()];
    assert!(check_fts_columns(&schema, &ok).is_ok());
    let bad = vec!["title".to_string()];
    let err = check_fts_columns(&schema, &bad).unwrap_err();
    assert_eq!(
        err.to_string(),
        "schema error: FTS columns mismatch; expected [\"body\", \"title\"] but found [\"title\"]. Run 'ministore index migrate'."
    );
}

#[test]
fn additive_schema_change_adds_columns_at_the_end() {
    let mut old = Schema::new();
    old.add_field("body", FieldSpec::text(None));
    let mut new = Schema::new();
    new.add_field("body", FieldSpec::text(None));
    new.add_field("title", FieldSpec::text(None));
    let stmts = plan_schema_change(&old, &new).unwrap();
    assert_eq!(stmts, vec!["ALTER TABLE search ADD COLUMN title".to_string()]);

    let mut reordering = Schema::new();
    reordering.add_field("body", FieldSpec::text(None));
    reordering.add_field("abstract", FieldSpec::text(None));
    let err = plan_schema_change(&old, &reordering).unwrap_err();
    assert_eq!(err.to_string(), "schema error: text fields reordered or changed");

    let mut removing = Schema::new();
    removing.add_field("tag", FieldSpec::keyword(false));
    let err = plan_schema_change(&old, &removing).unwrap_err();
    assert_eq!(err.to_string(), "schema error: field 'body' removed");
}

#[test]
fn applying_the_same_schema_adds_nothing() {
    let mut schema = Schema::new();
    schema.add_field("title", FieldSpec::text(None));
    schema.add_field("body", FieldSpec::text(Some(2.0_f64.to_string())));
    schema.add_field("tags", FieldSpec::keyword(true));
    assert_eq!(plan_schema_change(&schema, &schema).unwrap(), Vec::<String>::new());
}

#[test]
fn weights_must_be_positive_number_text() {
    for (w, ok) in [
        ("1.5", true),
        ("2", true),
        ("0.001", true),
        ("inf", true),
        ("NaN", true),
        ("0", false),
        ("0.0", false),
        ("-1", false),
        ("-inf", false),
        ("0e5", false),
        ("+0", false),
        ("abc", false),
        ("1.", false),
        ("1..2", false),
    ] {
        let mut schema = Schema::new();
        schema.add_field("title", FieldSpec::text(Some(w.to_string())));
        assert_eq!(schema.validate().is_ok(), ok, "weight {}", w);
    }
}
