use ministore::aggregate::{count_query, count_query_checked, discover_query, discover_query_checked, stats_query, stats_query_checked, stats_result};
use ministore::batch::{Batch, BatchWriter};
use ministore::json::JsonValue;
use ministore::query::planner::SqlValue;
use ministore::schema::{FieldSpec, Schema};

fn schema() -> Schema {
    let mut s = Schema::new();
    s.add_field("priority", FieldSpec::number(false));
    s.add_field("tag", FieldSpec::keyword(false));
    s
}

#[test]
fn count_wraps_the_compiled_query() {
    let q = count_query(&schema(), "tag:a", 0).unwrap();
    assert_eq!(
        q.sql,
        "WITH cte_0 AS (SELECT p.item_id FROM kw_dict d JOIN kw_postings p ON p.value_id = d.id WHERE d.field = ?1 AND d.value = ?2)  SELECT COUNT(*) FROM cte_0"
    );
}

#[test]
fn global_stats_read_the_field_table() {
    let q = stats_query(&schema(), "priority", None, 0).unwrap();
    assert!(!q.implicit);
    assert_eq!(q.query.sql, "SELECT COUNT(*), MIN(value), MAX(value), AVG(value) FROM field_number WHERE field = ?1");
    assert_eq!(q.query.params, vec![SqlValue::Text("priority".to_string())]);
    let blank = stats_query(&schema(), "priority", Some("  "), 0).unwrap();
    assert_eq!(blank.query.sql, q.query.sql);
    let implicit = stats_query(&schema(), "created", None, 0).unwrap();
    assert!(implicit.implicit);
    assert_eq!(implicit.query.sql, "SELECT COUNT(*), MIN(created_at), MAX(created_at), AVG(created_at) FROM items");
}

#[test]
fn stats_refuse_other_fields() {
    let err = stats_query(&schema(), "tag", None, 0).unwrap_err();
    assert_eq!(err.to_string(), "schema error: stats not supported for field type: Keyword");
    let err = stats_query(&schema(), "nope", None, 0).unwrap_err();
    assert_eq!(err.to_string(), "unknown field: nope");
}

#[test]
fn stats_objects_list_what_exists() {
    let v = stats_result("priority", false, 3, None, None, None);
    assert_eq!(v.to_json_string(), r#"{"count":3,"field":"priority"}"#);
    let v = stats_result("created", true, 0, None, None, None);
    assert_eq!(v.to_json_string(), r#"{"avg":null,"count":0,"field":"created","max":null,"min":null}"#);
}

#[test]
fn discovery_needs_a_keyword_field() {
    let q = discover_query(&schema(), "tag", None, 5, 0).unwrap();
    assert_eq!(q.sql, "SELECT value, doc_freq FROM kw_dict WHERE field = ?1 ORDER BY doc_freq DESC, value ASC LIMIT ?2");
    assert_eq!(q.params, vec![SqlValue::Text("tag".to_string()), SqlValue::Integer(5)]);
    let err = discover_query(&schema(), "priority", None, 5, 0).unwrap_err();
    assert_eq!(err.to_string(), "type mismatch for field 'priority': discover_values only runs on keyword fields");
}

#[test]
fn batches_collect_operations_in_order() {
    let mut b = Batch::new();
    assert!(b.is_empty());
    b.put_json(JsonValue::Null).unwrap();
    b.delete("/x".to_string()).unwrap();
    assert_eq!(b.len(), 2);
    assert_eq!(b.into_ops().len(), 2);
}

#[test]
fn a_failed_writer_refuses_further_work() {
    let mut w = BatchWriter::new();
    assert!(w.ready().is_ok());
    w.finish(Ok(true)).unwrap();
    w.finish(Ok(false)).unwrap();
    assert_eq!(w.count(), 1);
    assert!(w.begin_delete("").is_err());
    assert!(w.failed());
    let err = w.begin_delete("/a").unwrap_err();
    assert_eq!(err.to_string(), "internal error: batch transaction is already marked for rollback");
    assert_eq!(w.outcome().unwrap_err().to_string(), "internal error: batch operation failed; transaction rolled back");
}

#[test]
fn checked_queries_refuse_relative_dates_out_of_range() {
    let far = "tag:a AND created<\"9223372036854775807d\"";
    assert_eq!(
        count_query_checked(&schema(), far, 0).unwrap_err().to_string(),
        "query rejected: relative date is out of range"
    );
    assert_eq!(count_query_checked(&schema(), "tag:a", 0).unwrap().sql, count_query(&schema(), "tag:a", 0).unwrap().sql);
    assert!(stats_query_checked(&schema(), "priority", Some(far), 0).is_err());
    assert!(stats_query_checked(&schema(), "priority", Some("   "), 0).is_ok());
    assert!(discover_query_checked(&schema(), "tag", Some(far), 5, 0).is_err());
}
