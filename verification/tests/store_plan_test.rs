use igris_memory::codegraph::extractor::{ExtractedEdge, ExtractedSymbol};
use igris_memory::db::codegraph::{edge_params, symbol_params};
use igris_memory::db::entities::{entity_by_id, repointed_params};
use igris_memory::db::observations::{insert_params, observation_by_id, revise_params};
use igris_memory::db::search::{search_params, search_results_from_rows};
use igris_memory::embed::embedding_input;
use igris_memory::errors::ErrorCode;
use igris_memory::sql::SqlValue;
use igris_memory::text::hash_content;

fn text(s: &str) -> SqlValue {
    SqlValue::Text(s.to_string())
}

fn observation_row(id: i64, obs_type: &str, project: Option<&str>, deleted: bool) -> Vec<SqlValue> {
    vec![
        SqlValue::Integer(id),
        SqlValue::Null,
        text(obs_type),
        text("title"),
        text("content"),
        project.map(text).unwrap_or(SqlValue::Null),
        text("project"),
        SqlValue::Null,
        SqlValue::Null,
        SqlValue::Integer(1),
        SqlValue::Integer(1),
        text("2026-01-01T00:00:00Z"),
        text("2026-01-01T00:00:00Z"),
        if deleted { text("2026-01-02T00:00:00Z") } else { SqlValue::Null },
        SqlValue::Real("-1.5".to_string()),
        text("snip"),
    ]
}

#[test]
fn insert_params_store_redacted_text_and_its_hash() {
    let tags = vec!["a".to_string()];
    let p = insert_params(
        "key <private>x</private>",
        "use <private>sk-1</private> here",
        "config",
        Some("proj"),
        "project",
        None,
        Some(&tags),
        None,
        "now",
    );
    assert_eq!(p.len(), 11);
    assert_eq!(p[2], text("key [REDACTED]"));
    assert_eq!(p[3], text("use [REDACTED] here"));
    assert_eq!(p[7], SqlValue::Text(hash_content("use [REDACTED] here")));
    assert_eq!(p[8], text("[\"a\"]"));
    assert_eq!(p[0], SqlValue::Null);
    assert_eq!(p[9], text("now"));
}

#[test]
fn revise_params_redact_and_name_the_row() {
    let p = revise_params("t", "<private>s</private>", "decision", None, "now", 7);
    assert_eq!(p[1], text("[REDACTED]"));
    assert_eq!(p[4], SqlValue::Null);
    assert_eq!(p[6], SqlValue::Integer(7));
}

#[test]
fn embedding_input_never_carries_private_blocks() {
    assert_eq!(embedding_input("a <private>secret</private> b"), "a [REDACTED] b");
    assert_eq!(embedding_input("plain"), "plain");
}

#[test]
fn search_results_keep_live_matching_rows_in_order_up_to_limit() {
    let rows = vec![
        observation_row(1, "decision", Some("p"), false),
        observation_row(2, "decision", Some("p"), true),
        observation_row(3, "bugfix", Some("p"), false),
        observation_row(4, "decision", Some("q"), false),
        observation_row(5, "decision", Some("p"), false),
        observation_row(6, "decision", Some("p"), false),
    ];
    let r = search_results_from_rows(&rows, Some("decision"), Some("p"), 2);
    assert_eq!(r.iter().map(|x| x.observation.id).collect::<Vec<_>>(), vec![1, 5]);
    assert_eq!(r[0].rank, "-1.5");
    assert_eq!(r[0].snippet.as_deref(), Some("snip"));
    let all = search_results_from_rows(&rows, None, None, 50);
    assert_eq!(all.len(), 5);
}

#[test]
fn search_params_carry_filters_and_limit() {
    let p = search_params("hello world", Some("decision"), None, 20);
    assert_eq!(p, vec![text("\"hello\" \"world\""), text("decision"), SqlValue::Integer(20)]);
}

#[test]
fn observation_by_id_reads_the_matching_row_only() {
    let rows = vec![observation_row(3, "decision", None, false)];
    assert_eq!(observation_by_id(&rows, 3).unwrap().id, 3);
    let err = observation_by_id(&rows, 4).unwrap_err();
    assert_eq!(err.code, ErrorCode::DatabaseError);
    assert_eq!(err.error, "Query returned no rows");
}

#[test]
fn entity_by_id_answers_not_found_for_missing_or_deleted() {
    let live = vec![vec![
        SqlValue::Integer(9),
        text("person"),
        text("Ann"),
        text("ann"),
        SqlValue::Integer(2),
        SqlValue::Real("0.5".to_string()),
        SqlValue::Null,
        SqlValue::Null,
        SqlValue::Null,
        text("project"),
        text("c"),
        text("u"),
        SqlValue::Null,
    ]];
    let e = entity_by_id(&live, 9).unwrap();
    assert_eq!(e.slug, "ann");
    assert_eq!(e.salience, "0.5");
    let err = entity_by_id(&live, 10).unwrap_err();
    assert_eq!(err.code, ErrorCode::NotFound);
    assert_eq!(err.error, "Entity 10 not found");
    assert_eq!(entity_by_id(&Vec::new(), 9999).unwrap_err().error, "Entity 9999 not found");
}

#[test]
fn repointed_params_move_ends_and_drop_self_loops() {
    let row = vec![
        SqlValue::Integer(1),
        SqlValue::Integer(5),
        text("works_with"),
        SqlValue::Integer(3),
        SqlValue::Real("0.7".to_string()),
        text("f"),
        text("l"),
    ];
    let p = repointed_params(&row, 1, 2).unwrap();
    assert_eq!(p[0], SqlValue::Integer(2));
    assert_eq!(p[1], SqlValue::Integer(5));
    assert_eq!(p[3], SqlValue::Integer(3));
    assert_eq!(p[4], SqlValue::Real("0.7".to_string()));
    assert!(repointed_params(&row, 1, 5).is_none());
    let co = vec![SqlValue::Integer(7), SqlValue::Integer(1), text("co_mentioned")];
    let p = repointed_params(&co, 1, 9).unwrap();
    assert_eq!((p[0].clone(), p[1].clone()), (SqlValue::Integer(7), SqlValue::Integer(9)));
    assert_eq!(p[4], SqlValue::Real("1".to_string()));
}

#[test]
fn symbol_and_edge_params_resolve_sources_and_boundaries() {
    let sym = ExtractedSymbol {
        kind: "function".to_string(),
        name: "foo".to_string(),
        qualified_name: "foo".to_string(),
        start_line: 1,
        end_line: 3,
    };
    let p = symbol_params(4, &sym, "now");
    assert_eq!(p[0], SqlValue::Integer(4));
    assert_eq!(p[3], text("foo"));
    let recorded = vec![("foo".to_string(), 11i64)];
    let call = ExtractedEdge {
        relation: "calls".to_string(),
        src_qualified_name: Some("foo".to_string()),
        dst_name: "bar".to_string(),
        resolution: "heuristic".to_string(),
        external_boundary: false,
    };
    let p = edge_params(4, &recorded, &call, Some(12), "now");
    assert_eq!(p[0], SqlValue::Integer(11));
    assert_eq!(p[1], text("symbol"));
    assert_eq!(p[2], SqlValue::Integer(12));
    assert_eq!(p[7], SqlValue::Integer(0));
    let import = ExtractedEdge {
        relation: "imports".to_string(),
        src_qualified_name: None,
        dst_name: "std::fs".to_string(),
        resolution: "static".to_string(),
        external_boundary: false,
    };
    let p = edge_params(4, &recorded, &import, None, "now");
    assert_eq!(p[0], SqlValue::Integer(4));
    assert_eq!(p[1], text("file"));
    assert_eq!(p[2], SqlValue::Null);
    assert_eq!(p[7], SqlValue::Integer(1));
}
