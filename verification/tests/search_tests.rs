use ministore::cursor::{hash_query, CursorPayload, CursorPosition, RankModeSer};
use ministore::item::{ItemMeta, ItemView};
use ministore::json::{JsonNumber, JsonValue};
use ministore::query::planner::SqlValue;
use ministore::schema::{FieldSpec, Schema};
use ministore::search::{
    after_store_attempt, next_cursor_payload, plan_search, plan_search_at, resolve_stored_cursor, shape_item,
    split_page, IndexOptions, OutputFieldSelector, RankMode, SearchOptions, SearchRow, StoreStep,
};

fn jv(v: &serde_json::Value) -> JsonValue {
    match v {
        serde_json::Value::Null => JsonValue::Null,
        serde_json::Value::Bool(b) => JsonValue::Bool(*b),
        serde_json::Value::Number(n) => JsonValue::Number(JsonNumber {
            text: n.to_string(),
            float_text: n.as_f64().unwrap().to_string(),
        }),
        serde_json::Value::String(s) => JsonValue::String(s.clone()),
        serde_json::Value::Array(a) => JsonValue::Array(a.iter().map(jv).collect()),
        serde_json::Value::Object(o) => JsonValue::Object(o.iter().map(|(k, x)| (k.clone(), jv(x))).collect()),
    }
}

fn doc(text: &str) -> JsonValue {
    jv(&serde_json::from_str::<serde_json::Value>(text).unwrap())
}

fn row(id: i64, path: &str, updated: i64, score: Option<&str>) -> SearchRow {
    SearchRow {
        item_id: id,
        path: path.to_string(),
        data_json: "{}".to_string(),
        created_at: 0,
        updated_at: updated,
        score: score.map(|s| s.to_string()),
    }
}

#[test]
fn test_plan_search() {
    let mut schema = Schema::new();
    schema.add_field("title", FieldSpec::text(Some(1.0_f64.to_string())));
    let opts = SearchOptions::default();
    let plan = plan_search(&schema, "{}", "title:test", &opts, None, 1_700_000_000_000).unwrap();
    assert!(!plan.sql.is_empty());
    assert!(!plan.explain.is_empty());
}

// Further behaviour of search planning.

#[test]
fn fts_search_sql_is_ranked_by_weighted_bm25() {
    let mut schema = Schema::new();
    schema.add_field("title", FieldSpec::text(Some(3.0_f64.to_string())));
    schema.add_field("body", FieldSpec::text(None));
    let opts = SearchOptions { limit: 2, ..SearchOptions::default() };
    let plan = plan_search_at(&schema, "{}", "title:test", &opts, None, 0).unwrap();
    assert!(plan.requires_fts_rank);
    assert_eq!(
        plan.sql,
        "WITH cte_0 AS (SELECT rowid AS item_id FROM search WHERE search MATCH ?1) \n         SELECT item_id, path, data_json, created_at, updated_at, score\n         FROM (\n           SELECT i.id AS item_id, i.path AS path, i.data_json AS data_json, i.created_at AS created_at, i.updated_at AS updated_at, (-bm25(search, 1, 3)) AS score\n           FROM items i\n           JOIN search ON search.rowid = i.id\n           \n           JOIN cte_0 r ON r.item_id = i.id\n         ) q\n         WHERE 1=1 \n         ORDER BY score DESC, item_id ASC\n         LIMIT 3"
    );
    assert_eq!(plan.params, vec![SqlValue::Text("title:test".to_string())]);
}

#[test]
fn cursor_continues_after_the_last_row() {
    let mut schema = Schema::new();
    schema.add_field("score", FieldSpec::number(false));
    let opts = SearchOptions { rank: RankMode::Field("score".to_string()), limit: 2, ..SearchOptions::default() };
    let hash = hash_query("{}", "score>0", &RankModeSer::from(&opts.rank));
    let pos = CursorPosition {
        payload: CursorPayload::Field {
            field: "score".to_string(),
            rank_value: "40.0".to_string(),
            updated_at_ms: 5,
            path: "/d".to_string(),
        },
        hash,
    };
    let plan = plan_search_at(&schema, "{}", "score>0", &opts, Some(&pos), 0).unwrap();
    assert!(plan.sql.contains(
        "WHERE 1=1 AND ((score < ?4 OR (score = ?4 AND (updated_at < ?5 OR (updated_at = ?5 AND path > ?6)))))"
    ));
    assert!(plan.sql.contains("rank_field AS (SELECT item_id, MAX(value) AS rank_value FROM field_number WHERE field = ?3 GROUP BY item_id)"));
    assert_eq!(
        plan.params,
        vec![
            SqlValue::Text("score".to_string()),
            SqlValue::Real("0".to_string()),
            SqlValue::Text("score".to_string()),
            SqlValue::Real("40.0".to_string()),
            SqlValue::Integer(5),
            SqlValue::Text("/d".to_string()),
        ]
    );
}

#[test]
fn cursor_from_another_query_is_refused() {
    let mut schema = Schema::new();
    schema.add_field("tag", FieldSpec::keyword(false));
    let opts = SearchOptions::default();
    let pos = CursorPosition {
        payload: CursorPayload::Recency { updated_at_ms: 1, path: "/a".to_string() },
        hash: hash_query("{}", "tag:other", &RankModeSer::Default),
    };
    let err = plan_search_at(&schema, "{}", "tag:a", &opts, Some(&pos), 0).unwrap_err();
    assert_eq!(err.to_string(), "cursor error: cursor does not match query/schema/rank");
}

#[test]
fn rank_field_must_be_number_or_date() {
    let mut schema = Schema::new();
    schema.add_field("tag", FieldSpec::keyword(false));
    let opts = SearchOptions { rank: RankMode::Field("tag".to_string()), ..SearchOptions::default() };
    let err = plan_search_at(&schema, "{}", "tag:a", &opts, None, 0).unwrap_err();
    assert_eq!(err.to_string(), "type mismatch for field 'tag': rank field must be number or date");
}

#[test]
fn pages_keep_limit_rows() {
    let rows = vec![row(1, "/a", 0, None), row(2, "/b", 0, None), row(3, "/c", 0, None)];
    let (page, more) = split_page(rows, 2);
    assert!(more);
    assert_eq!(page.len(), 2);
    let (page, more) = split_page(vec![row(1, "/a", 0, None)], 2);
    assert!(!more);
    assert_eq!(page.len(), 1);
}

#[test]
fn next_cursor_follows_rank_mode() {
    let last = row(7, "/g", 99, Some("2.5"));
    assert_eq!(
        next_cursor_payload(&RankMode::Default, true, &last).unwrap(),
        CursorPayload::Fts { score: "2.5".to_string(), item_id: 7 }
    );
    assert_eq!(
        next_cursor_payload(&RankMode::Default, false, &last).unwrap(),
        CursorPayload::Recency { updated_at_ms: 99, path: "/g".to_string() }
    );
    assert_eq!(next_cursor_payload(&RankMode::Unranked, false, &last).unwrap(), CursorPayload::Unranked { item_id: 7 });
    let no_score = row(7, "/g", 99, None);
    let err = next_cursor_payload(&RankMode::Field("n".to_string()), false, &no_score).unwrap_err();
    assert_eq!(err.to_string(), "cursor error: missing rank_value for field rank");
}

#[test]
fn items_are_shaped_by_selector() {
    let view = || ItemView {
        path: "/a".to_string(),
        doc: doc(r#"{"path": "/a", "t": "x", "n": 1}"#),
        meta: ItemMeta { created_at_ms: 0, updated_at_ms: 0 },
    };
    assert_eq!(shape_item(view(), &OutputFieldSelector::PathsOnly).to_json_string(), r#"{"path":"/a"}"#);
    assert_eq!(shape_item(view(), &OutputFieldSelector::All).to_json_string(), r#"{"n":1,"path":"/a","t":"x"}"#);
    let sel = OutputFieldSelector::Fields(vec!["t".to_string(), "missing".to_string()]);
    assert_eq!(shape_item(view(), &sel).to_json_string(), r#"{"path":"/a","t":"x"}"#);
    let no_path = ItemView { path: "/b".to_string(), doc: doc(r#"{"t": 1}"#), meta: ItemMeta { created_at_ms: 0, updated_at_ms: 0 } };
    assert_eq!(shape_item(no_path, &OutputFieldSelector::All).to_json_string(), r#"{"path":"/b","t":1}"#);
}

#[test]
fn stored_cursors_expire() {
    assert_eq!(resolve_stored_cursor(Some(("{}".to_string(), 10)), 5).unwrap(), "{}");
    let err = resolve_stored_cursor(Some(("{}".to_string(), 4)), 5).unwrap_err();
    assert_eq!(err.to_string(), "cursor error: cursor expired; rerun query");
    assert!(resolve_stored_cursor(None, 5).is_err());
    assert_eq!(IndexOptions::default().cursor_ttl_ms, 3_600_000);
}

#[test]
fn storing_a_cursor_tries_three_handles() {
    assert!(matches!(after_store_attempt(1, false), StoreStep::Done));
    assert!(matches!(after_store_attempt(2, true), StoreStep::TryAgain));
    match after_store_attempt(3, true) {
        StoreStep::GiveUp(e) => assert_eq!(e.to_string(), "cursor error: failed to generate unique cursor handle after 3 attempts"),
        other => panic!("expected to give up, got {:?}", other),
    }
}

#[test]
fn relative_dates_out_of_range_are_refused() {
    let mut schema = Schema::new();
    schema.add_field("title", FieldSpec::text(None));
    let opts = SearchOptions::default();
    let err = plan_search(&schema, "{}", "title:x AND created<\"9223372036854775807d\"", &opts, None, 0).unwrap_err();
    assert_eq!(err.to_string(), "query rejected: relative date is out of range");
    let mut opts = SearchOptions::default();
    opts.limit = usize::MAX;
    let err = plan_search(&schema, "{}", "title:x", &opts, None, 0).unwrap_err();
    assert_eq!(err.to_string(), "query rejected: limit is too large");
}
