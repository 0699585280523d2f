use ministore::json::{JsonNumber, JsonValue};
use ministore::output::{format_search_results, SearchOutputFormat, SearchOutputOptions};
use ministore::search::SearchResultPage;

fn jv(v: &serde_json::Value) -> JsonValue {
    match v {
        serde_json::Value::Null => JsonValue::Null,
        serde_json::Value::Bool(b) => JsonValue::Bool(*b),
        serde_json::Value::Number(n) => JsonValue::Number(JsonNumber {
            text: n.to_string(),
            float_text: n.as_f64().unwrap().to_string(),
        }),
        serde_json::Value::String(s) => JsonValue::String(s.clone()),
        serde_json::Value::Array(a) => JsonValue::Array(a.iter().map(jv).collect()),
        serde_json::Value::Object(o) => JsonValue::Object(o.iter().map(|(k, x)| (k.clone(), jv(x))).collect()),
    }
}

fn doc(text: &str) -> JsonValue {
    jv(&serde_json::from_str::<serde_json::Value>(text).unwrap())
}

fn sample_page() -> SearchResultPage {
    SearchResultPage {
        items: vec![
            doc(r#"{"path": "/guides/search", "category": "guide", "priority": 10, "title": "Fast search"}"#),
            doc(r#"{"path": "/notes/sqlite", "title": "SQLite notes"}"#),
        ],
        next_cursor: Some("c:next".into()),
        explain_sql: None,
        explain_steps: None,
        has_more: true,
    }
}

#[test]
fn formats_pretty_output() {
    let formatted = format_search_results(
        &sample_page(),
        &SearchOutputOptions { format: SearchOutputFormat::Pretty, elapsed: Some(7) },
    )
    .unwrap();
    assert_eq!(
        formatted,
        [
            "Found 2 items in 7ms\n",
            "- /guides/search\n",
            "  category: guide\n",
            "  priority: 10\n",
            "  title: Fast search\n",
            "- /notes/sqlite\n",
            "  title: SQLite notes\n",
            "\nNext cursor: c:next\n",
        ]
        .concat()
    );
}

#[test]
fn formats_paths_output() {
    let formatted = format_search_results(
        &sample_page(),
        &SearchOutputOptions { format: SearchOutputFormat::Paths, elapsed: None },
    )
    .unwrap();
    assert_eq!(formatted, "/guides/search\n/notes/sqlite\n");
}

#[test]
fn formats_json_envelope() {
    let formatted = format_search_results(
        &sample_page(),
        &SearchOutputOptions { format: SearchOutputFormat::Json, elapsed: None },
    )
    .unwrap();
    let value: serde_json::Value = serde_json::from_str(&formatted).unwrap();
    assert_eq!(value["items"].as_array().unwrap().len(), 2);
    assert_eq!(value["next_cursor"], "c:next");
    assert_eq!(value["has_more"], true);
}

#[test]
fn rejects_unknown_format() {
    let error = "yaml".parse::<SearchOutputFormat>().unwrap_err();
    assert!(error.to_string().contains("expected pretty, paths, or json"));
}

// Further behaviour of output.

#[test]
fn format_names_ignore_case() {
    assert_eq!("".parse::<SearchOutputFormat>().unwrap(), SearchOutputFormat::Pretty);
    assert_eq!("JSON".parse::<SearchOutputFormat>().unwrap(), SearchOutputFormat::Json);
    assert_eq!("Paths".parse::<SearchOutputFormat>().unwrap(), SearchOutputFormat::Paths);
    let error = "yaml".parse::<SearchOutputFormat>().unwrap_err();
    assert_eq!(
        error.to_string(),
        "invalid argument: unknown search output format \"yaml\"; expected pretty, paths, or json"
    );
}

#[test]
fn pretty_output_shows_more_and_explanation() {
    let page = SearchResultPage {
        items: vec![doc(r#"{"x": [1]}"#)],
        next_cursor: None,
        explain_sql: Some("SELECT 1".to_string()),
        explain_steps: Some(vec!["HAS a".to_string()]),
        has_more: true,
    };
    let formatted = format_search_results(&page, &SearchOutputOptions::default()).unwrap();
    assert_eq!(
        formatted,
        "Found 1 item\n- (no path)\n  x: [1]\n\nMore results available\n\nExplanation:\n  HAS a\n\nSQL: SELECT 1\n"
    );
}

#[test]
fn json_envelope_matches_serde_pretty() {
    let page = sample_page();
    let formatted = format_search_results(&page, &SearchOutputOptions { format: SearchOutputFormat::Json, elapsed: None }).unwrap();
    let value: serde_json::Value = serde_json::from_str(&formatted).unwrap();
    assert_eq!(formatted, serde_json::to_string_pretty(&value).unwrap() + "\n");
}

#[test]
fn one_result_is_counted_as_one_item() {
    let page = SearchResultPage {
        items: vec![doc(r#"{"path":"/blog/hello-world","title":"Hello World","tags":["rust","tutorial"]}"#)],
        next_cursor: None,
        explain_sql: None,
        explain_steps: None,
        has_more: false,
    };
    let formatted =
        format_search_results(&page, &SearchOutputOptions { format: SearchOutputFormat::Pretty, elapsed: None })
            .unwrap();
    assert_eq!(
        formatted,
        "Found 1 item\n- /blog/hello-world\n  tags: [\"rust\",\"tutorial\"]\n  title: Hello World\n"
    );
}
