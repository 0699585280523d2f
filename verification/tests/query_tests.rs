use ministore::query::ast::{CmpOp, Expr, KeywordPatternKind, Predicate, RelUnit};
use ministore::query::lexer::{lex, Tok};
use ministore::query::normalize::{has_positive_anchor, normalize};
use ministore::query::parser::{classify_keyword_pattern, parse_query, parse_relative_duration};
use ministore::query::planner::{compile_to_ctes, quote_fts_term, SqlValue};
use ministore::schema::{FieldSpec, Schema};

#[test]
fn test_lex_simple() {
    let tokens = lex("title:test").unwrap();
    assert_eq!(tokens.len(), 3);
    assert_eq!(tokens[0], Tok::Ident("title".to_string()));
    assert_eq!(tokens[1], Tok::Colon);
    assert_eq!(tokens[2], Tok::Ident("test".to_string()));
}

#[test]
fn test_lex_operators() {
    let tokens = lex("priority>5 AND active").unwrap();
    assert_eq!(tokens[1], Tok::Gt);
    assert_eq!(tokens[3], Tok::And);
}

#[test]
fn test_lex_string() {
    let tokens = lex(r#"title:"hello world""#).unwrap();
    assert_eq!(tokens[2], Tok::String("hello world".to_string()));
}

#[test]
fn test_lex_number() {
    let tokens = lex("3.14").unwrap();
    match &tokens[0] {
        Tok::Number(text) => assert_eq!(text.parse::<f64>().unwrap(), 3.14),
        other => panic!("expected a number token, got {:?}", other),
    }
}

#[test]
fn test_lex_parens() {
    let tokens = lex("(a OR b) AND c").unwrap();
    assert_eq!(tokens[0], Tok::LParen);
    assert_eq!(tokens[4], Tok::RParen);
}

#[test]
fn test_positive_anchor_simple() {
    let expr = parse_query("title:test").unwrap();
    assert!(has_positive_anchor(&expr));
}

#[test]
fn test_positive_anchor_with_not() {
    let expr = parse_query("title:test AND NOT archived").unwrap();
    assert!(has_positive_anchor(&expr));
}

#[test]
fn test_no_positive_anchor() {
    let expr = parse_query("NOT archived").unwrap();
    assert!(!has_positive_anchor(&expr));
}

#[test]
fn test_normalize_rejects_pure_negative() {
    let expr = parse_query("NOT archived").unwrap();
    assert!(normalize(expr).is_err());
}

#[test]
fn test_normalize_accepts_positive() {
    let expr = parse_query("title:test").unwrap();
    assert!(normalize(expr).is_ok());
}

#[test]
fn test_parse_has() {
    let expr = parse_query("has:title").unwrap();
    match expr {
        Expr::Pred(Predicate::Has { field }) => assert_eq!(field, "title"),
        _ => panic!("expected Has predicate"),
    }
}

#[test]
fn test_parse_bare_text() {
    let expr = parse_query("title").unwrap();
    match expr {
        Expr::Pred(Predicate::Text { field, fts }) => {
            assert_eq!(field, None);
            assert_eq!(fts, "title");
        }
        _ => panic!("expected Text predicate for bare term"),
    }
}

#[test]
fn test_parse_keyword() {
    let expr = parse_query("tag:rust").unwrap();
    match expr {
        Expr::Pred(Predicate::Keyword { field, pattern, .. }) => {
            assert_eq!(field, "tag");
            assert_eq!(pattern, "rust");
        }
        _ => panic!("expected Keyword predicate"),
    }
}

#[test]
fn test_parse_and_or() {
    let expr = parse_query("a:1 AND b:2 OR c:3").unwrap();
    match expr {
        Expr::Or(_, _) => {}
        _ => panic!("expected Or at top level"),
    }
}

#[test]
fn test_parse_not() {
    let expr = parse_query("NOT active").unwrap();
    match expr {
        Expr::Pred(Predicate::Bool { field, value }) => {
            assert_eq!(field, "active");
            assert!(!value);
        }
        _ => panic!("expected Bool predicate"),
    }
}

#[test]
fn test_parse_comparison() {
    let expr = parse_query("priority>5").unwrap();
    match expr {
        Expr::Pred(Predicate::NumberCmp { field, op, value }) => {
            assert_eq!(field, "priority");
            assert_eq!(op, CmpOp::Gt);
            assert_eq!(value.parse::<f64>().unwrap(), 5.0);
        }
        _ => panic!("expected NumberCmp"),
    }
}

#[test]
fn test_parse_range() {
    let expr = parse_query("score:1.0..5.0").unwrap();
    match expr {
        Expr::Pred(Predicate::NumberRange { field, lo, hi }) => {
            assert_eq!(field, "score");
            assert_eq!(lo.parse::<f64>().unwrap(), 1.0);
            assert_eq!(hi.parse::<f64>().unwrap(), 5.0);
        }
        _ => panic!("expected NumberRange"),
    }
}

#[test]
fn test_parse_not_shorthand() {
    let expr = parse_query("!archived").unwrap();
    match expr {
        Expr::Pred(Predicate::Bool { field, value }) => {
            assert_eq!(field, "archived");
            assert!(!value);
        }
        _ => panic!("expected Bool predicate for shorthand"),
    }
}

#[test]
fn test_compile_simple_has() {
    let mut schema = Schema::new();
    schema.add_field("title", FieldSpec::text(Some(1.0_f64.to_string())));
    let expr = parse_query("has:title").unwrap();
    let output = compile_to_ctes(&schema, expr, 0).unwrap();
    assert!(output.ctes.len() > 0);
    assert!(output.explain_steps.len() > 0);
}

#[test]
fn test_compile_and() {
    let mut schema = Schema::new();
    schema.add_field("title", FieldSpec::text(Some(1.0_f64.to_string())));
    schema.add_field("active", FieldSpec::bool());
    let expr = parse_query("has:title AND active:true").unwrap();
    let output = compile_to_ctes(&schema, expr, 0).unwrap();
    assert!(output.ctes.len() >= 3);
}

#[test]
fn test_compile_keyword() {
    let mut schema = Schema::new();
    schema.add_field("tag", FieldSpec::keyword(false));
    let expr = parse_query("tag:rust").unwrap();
    let output = compile_to_ctes(&schema, expr, 0).unwrap();
    assert!(output.ctes.len() > 0);
}

// Behaviour the documentation and code promise beyond the tests above.

#[test]
fn implicit_and_joins_adjacent_terms() {
    let expr = parse_query("hello world").unwrap();
    match expr {
        Expr::And(l, r) => {
            assert_eq!(*l, Expr::Pred(Predicate::Text { field: None, fts: "hello".to_string() }));
            assert_eq!(*r, Expr::Pred(Predicate::Text { field: None, fts: "world".to_string() }));
        }
        other => panic!("expected an implicit AND, got {:?}", other),
    }
}

#[test]
fn keyword_patterns_are_classified() {
    assert_eq!(classify_keyword_pattern("rust"), KeywordPatternKind::Exact);
    assert_eq!(classify_keyword_pattern("ru*"), KeywordPatternKind::Prefix);
    assert_eq!(classify_keyword_pattern("*us*"), KeywordPatternKind::Contains);
    assert_eq!(classify_keyword_pattern("r?st"), KeywordPatternKind::Glob);
    assert_eq!(classify_keyword_pattern("*rust"), KeywordPatternKind::Glob);
}

#[test]
fn relative_durations_are_read() {
    assert_eq!(parse_relative_duration("7d"), Some((7, RelUnit::D)));
    assert_eq!(parse_relative_duration("2weeks"), Some((2, RelUnit::W)));
    assert_eq!(parse_relative_duration("3H"), Some((3, RelUnit::H)));
    assert_eq!(parse_relative_duration("7"), None);
    assert_eq!(parse_relative_duration("xd"), None);
    assert_eq!(parse_relative_duration(""), None);
}

#[test]
fn fts_terms_are_quoted_when_needed() {
    assert_eq!(quote_fts_term("plain"), "plain");
    assert_eq!(quote_fts_term("two words"), "\"two words\"");
    assert_eq!(quote_fts_term("say \"hi\""), "\"say \"\"hi\"\"\"");
}

#[test]
fn prefix_pattern_too_short_is_rejected() {
    let expr = parse_query("tag:a*").unwrap();
    let err = normalize(expr).unwrap_err();
    assert!(err.to_string().contains("too short"));
}

#[test]
fn keyword_compiles_with_parameters() {
    let mut schema = Schema::new();
    schema.add_field("tag", FieldSpec::keyword(false));
    let expr = parse_query("tag:rust").unwrap();
    let out = compile_to_ctes(&schema, expr, 0).unwrap();
    assert_eq!(out.result_cte_name, "cte_0");
    assert_eq!(
        out.ctes[0].sql,
        "SELECT p.item_id FROM kw_dict d JOIN kw_postings p ON p.value_id = d.id WHERE d.field = ?1 AND d.value = ?2"
    );
    assert_eq!(out.params, vec![SqlValue::Text("tag".to_string()), SqlValue::Text("rust".to_string())]);
    assert_eq!(out.explain_steps, vec!["KEYWORD tag:rust".to_string()]);
}

#[test]
fn relative_age_on_created_counts_back() {
    let schema = {
        let mut s = Schema::new();
        s.add_field("tag", FieldSpec::keyword(false));
        s
    };
    let expr = parse_query("tag:a AND created<\"7d\"").unwrap();
    let out = compile_to_ctes(&schema, expr, 1_000_000_000_000).unwrap();
    assert_eq!(out.ctes[1].sql, "SELECT id AS item_id FROM items WHERE created_at >= ?3");
    assert_eq!(out.params[2], SqlValue::Integer(1_000_000_000_000 - 7 * 86_400_000));
}

#[test]
fn unknown_field_is_reported() {
    let schema = {
        let mut s = Schema::new();
        s.add_field("tag", FieldSpec::keyword(false));
        s
    };
    let expr = parse_query("has:nope").unwrap();
    let err = compile_to_ctes(&schema, expr, 0).unwrap_err();
    assert_eq!(err.to_string(), "unknown field: nope");
}

#[test]
fn refuses_queries_made_only_of_negations() {
    for q in ["NOT a:x AND NOT b:y", "NOT a:x OR NOT hello", "(NOT a:x) AND (NOT b:y OR NOT c:z)"] {
        let expr = parse_query(q).unwrap();
        let err = normalize(expr).unwrap_err();
        assert_eq!(
            err.to_string(),
            "query rejected: query must have at least one positive anchor (FTS term, exact keyword match, or literal path prefix)"
        );
    }
}

#[test]
fn keywords_are_read_in_any_case() {
    let tokens = lex("a and b Or not c").unwrap();
    assert_eq!(tokens[1], Tok::And);
    assert_eq!(tokens[3], Tok::Or);
    assert_eq!(tokens[4], Tok::Not);
}

#[test]
fn comparisons_may_follow_the_colon() {
    let expr = parse_query("views:>=1000").unwrap();
    assert_eq!(
        expr,
        Expr::Pred(Predicate::NumberCmp { field: "views".to_string(), op: CmpOp::Gte, value: "1000".to_string() })
    );
    assert_eq!(parse_query("views:>=1000").unwrap(), parse_query("views>=1000").unwrap());
    assert_eq!(
        parse_query("published:>\"2024-01-01\"").unwrap(),
        parse_query("published>\"2024-01-01\"").unwrap()
    );
    assert_eq!(parse_query("created:<\"7d\"").unwrap(), parse_query("created<\"7d\"").unwrap());
}

#[test]
fn equals_sign_compares_numbers_and_dates() {
    assert_eq!(
        parse_query("views=5").unwrap(),
        Expr::Pred(Predicate::NumberCmp { field: "views".to_string(), op: CmpOp::Eq, value: "5".to_string() })
    );
    assert_eq!(
        parse_query("published=\"2024-01-01\"").unwrap(),
        Expr::Pred(Predicate::DateCmpAbs { field: "published".to_string(), op: CmpOp::Eq, epoch_ms: 1704067200000 })
    );
    assert_eq!(parse_query("views:=5").unwrap(), parse_query("views=5").unwrap());
    assert_eq!(lex("a = b").unwrap()[1], Tok::Eq);
}

#[test]
fn unicode_white_space_separates_terms() {
    let tokens = lex("a\u{3000}b\u{00A0}c\u{2029}d").unwrap();
    assert_eq!(tokens.len(), 4);
    assert!(lex("a\u{200B}b").is_err());
}

#[test]
fn combinators_compile_to_set_operations_on_earlier_ctes() {
    let mut schema = Schema::new();
    schema.add_field("tag", FieldSpec::keyword(true));
    let out = compile_to_ctes(&schema, parse_query("tag:a AND (tag:b OR NOT tag:c)").unwrap(), 0).unwrap();
    let sqls: Vec<&str> = out.ctes.iter().map(|c| c.sql.as_str()).collect();
    assert_eq!(out.ctes.len(), 6);
    assert_eq!(sqls[3], "SELECT id AS item_id FROM items EXCEPT SELECT item_id FROM cte_2");
    assert_eq!(sqls[4], "SELECT item_id FROM cte_1 UNION SELECT item_id FROM cte_3");
    assert_eq!(sqls[5], "SELECT item_id FROM cte_0 INTERSECT SELECT item_id FROM cte_4");
    assert_eq!(out.result_cte_name, "cte_5");
    assert_eq!(out.explain_steps.len(), 6);
}

#[test]
fn keyword_kinds_choose_the_comparison() {
    let mut schema = Schema::new();
    schema.add_field("tag", FieldSpec::keyword(true));
    for (q, test, value) in [("tag:ru", "=", "ru"), ("tag:ru*", "LIKE", "ru%"), ("tag:\"*us*\"", "LIKE", "%us%"), ("tag:r?st", "GLOB", "r?st")] {
        let out = compile_to_ctes(&schema, parse_query(q).unwrap(), 0).unwrap();
        assert_eq!(
            out.ctes[0].sql,
            format!("SELECT p.item_id FROM kw_dict d JOIN kw_postings p ON p.value_id = d.id WHERE d.field = ?1 AND d.value {} ?2", test)
        );
        assert_eq!(out.params, vec![SqlValue::Text("tag".to_string()), SqlValue::Text(value.to_string())]);
    }
}
