use ministore::cursor::{
    decode_full_json, encode_full, hash_query, is_short_cursor_token, make_short_handle, position_text,
    short_cursor_handle, short_cursor_token, CursorPayload, RankModeSer,
};
use ministore::search::RankMode;

fn payload_from_json(v: &serde_json::Value) -> CursorPayload {
    match v["kind"].as_str().unwrap() {
        "fts" => CursorPayload::Fts {
            score: serde_json::to_string(&v["score"]).unwrap(),
            item_id: v["item_id"].as_i64().unwrap(),
        },
        "recency" => CursorPayload::Recency {
            updated_at_ms: v["updated_at_ms"].as_i64().unwrap(),
            path: v["path"].as_str().unwrap().to_string(),
        },
        "field" => CursorPayload::Field {
            field: v["field"].as_str().unwrap().to_string(),
            rank_value: serde_json::to_string(&v["rank_value"]).unwrap(),
            updated_at_ms: v["updated_at_ms"].as_i64().unwrap(),
            path: v["path"].as_str().unwrap().to_string(),
        },
        "none" => CursorPayload::Unranked { item_id: v["item_id"].as_i64().unwrap() },
        other => panic!("unknown kind {}", other),
    }
}

#[test]
fn test_hash_query() {
    let hash1 = hash_query("schema1", "query1", &RankModeSer::Default);
    let hash2 = hash_query("schema1", "query1", &RankModeSer::Default);
    let hash3 = hash_query("schema2", "query1", &RankModeSer::Default);
    assert_eq!(hash1, hash2);
    assert_ne!(hash1, hash3);
}

#[test]
fn test_encode_decode_full() {
    let payload = CursorPayload::Recency { updated_at_ms: 123, path: "/p".into() };
    let hash = "abc123";
    let encoded = encode_full(&payload, hash).unwrap();
    let json = decode_full_json(&encoded).unwrap();
    let decoded: serde_json::Value = serde_json::from_str(&json).unwrap();
    assert_eq!(payload_from_json(&decoded["payload"]), payload);
    assert_eq!(decoded["hash"].as_str().unwrap(), hash);
}

#[test]
fn test_short_handle() {
    let h = make_short_handle().unwrap();
    assert!(!h.is_empty());
}

// Further cursor behaviour.

#[test]
fn hash_is_lowercase_sha256_hex() {
    let h = hash_query("", "", &RankModeSer::Unranked);
    assert_eq!(h.len(), 64);
    assert!(h.chars().all(|c| c.is_ascii_hexdigit() && !c.is_ascii_uppercase()));
    let f = hash_query("", "", &RankModeSer::from(&RankMode::Field("x".to_string())));
    assert_ne!(h, f);
}

#[test]
fn positions_are_written_as_json() {
    let p = CursorPayload::Fts { score: "1.5".to_string(), item_id: 7 };
    assert_eq!(
        position_text(&p, "h"),
        "{\"payload\":{\"kind\":\"fts\",\"score\":1.5,\"item_id\":7},\"hash\":\"h\"}"
    );
}

#[test]
fn bad_tokens_are_cursor_errors() {
    let err = decode_full_json("***").unwrap_err();
    assert!(err.to_string().starts_with("cursor error: base64 decode error: "));
}

#[test]
fn short_tokens_carry_their_handle() {
    let h = make_short_handle().unwrap();
    assert_eq!(h.len(), 12);
    let t = short_cursor_token(&h);
    assert!(is_short_cursor_token(&t));
    assert_eq!(short_cursor_handle(&t), Some(h.as_str()));
    assert!(!is_short_cursor_token("abc"));
    assert_eq!(short_cursor_handle("c"), None);
}

#[test]
fn hash_is_sha256_of_schema_query_and_rank() {
    let h = hash_query("{\"fields\":{}}", "a:b", &RankModeSer::Default);
    let digest = <sha2::Sha256 as sha2::Digest>::digest(b"{\"fields\":{}}\na:b\n\"Default\"");
    let expected: String = digest.iter().map(|b| format!("{:02x}", b)).collect();
    assert_eq!(h, expected);
}
