use igris_memory::db::Database;
use igris_memory::errors::ErrorCode;
use igris_memory::schema::SCHEMA_V1;
use igris_memory::server::args::{default_scope, default_type};
use igris_memory::text::entity_slug;
use igris_memory::text::normalize_alias;
use igris_memory::validation::validate_entity;
use rusqlite::Connection;

#[test]
fn upsert_creates_then_returns_entity() {
    let mut db = Database::open_in_memory().unwrap();
    let e = db
        .upsert_entity("person", "Jane Doe", &[], Some("igris-memory"), "project")
        .unwrap();
    assert_eq!(e.kind, "person");
    assert_eq!(e.canonical_name, "Jane Doe");
    assert_eq!(e.slug, "jane-doe");
    assert_eq!(e.tier, 3);

    let fetched = db.get_entity(e.id).unwrap();
    assert_eq!(fetched.id, e.id);
    assert_eq!(fetched.slug, "jane-doe");
}

#[test]
fn upsert_same_slug_updates_in_place() {
    let mut db = Database::open_in_memory().unwrap();
    let a = db
        .upsert_entity("person", "Jane Doe", &[], None, "project")
        .unwrap();
    let b = db
        .upsert_entity("person", "Jane Doe", &["JD".to_string()], None, "project")
        .unwrap();
    assert_eq!(a.id, b.id, "same slug must update in place, not duplicate");

    let count: i64 = db
        .connection()
        .query_row("SELECT count(*) FROM entities", [], |r| r.get(0))
        .unwrap();
    assert_eq!(count, 1);

    // canonical_name + provided alias are both registered
    let alias_count: i64 = db
        .connection()
        .query_row(
            "SELECT count(*) FROM entity_aliases WHERE entity_id = ?1",
            [a.id],
            |r| r.get(0),
        )
        .unwrap();
    assert_eq!(alias_count, 2, "expected 'jane doe' + 'jd' aliases");
}

#[test]
fn get_entity_by_slug_scopes_by_project() {
    let mut db = Database::open_in_memory().unwrap();
    db.upsert_entity("company", "Acme", &[], Some("proj-a"), "project")
        .unwrap();
    let got = db
        .get_entity_by_slug("acme", Some("proj-a"), "project")
        .unwrap();
    assert_eq!(got.canonical_name, "Acme");
    assert!(
        db.get_entity_by_slug("acme", Some("proj-b"), "project")
            .is_err(),
        "slug lookup must be scoped to project"
    );
}

#[test]
fn get_entity_returns_not_found_for_missing_id() {
    let mut db = Database::open_in_memory().unwrap();
    let err = db.get_entity(9999).unwrap_err();
    assert_eq!(err.code, ErrorCode::NotFound);
}

#[test]
fn get_entity_by_slug_returns_not_found_for_missing_slug() {
    let mut db = Database::open_in_memory().unwrap();
    let err = db
        .get_entity_by_slug("does-not-exist", None, "project")
        .unwrap_err();
    assert_eq!(err.code, ErrorCode::NotFound);
}

#[test]
fn upsert_rejects_invalid_kind() {
    let mut db = Database::open_in_memory().unwrap();
    assert!(
        db.upsert_entity("alien", "X", &[], None, "project")
            .is_err()
    );
}

#[test]
fn schema_v2_creates_entity_tables() {
    let mut db = Database::open_in_memory().unwrap();
    for table in ["entities", "entity_aliases", "edges", "mentions"] {
        let count: i64 = db
            .connection()
            .query_row(
                "SELECT count(*) FROM sqlite_master WHERE type='table' AND name=?1",
                [table],
                |r| r.get(0),
            )
            .unwrap();
        assert_eq!(count, 1, "table {table} should exist");
    }
    let version: u32 = db
        .connection()
        .query_row("PRAGMA user_version", [], |r| r.get(0))
        .unwrap();
    assert_eq!(version, 5);
}

#[test]
fn schema_v2_preserves_observations_table() {
    let mut db = Database::open_in_memory().unwrap();
    let count: i64 = db
        .connection()
        .query_row(
            "SELECT count(*) FROM sqlite_master WHERE type='table' AND name='observations'",
            [],
            |r| r.get(0),
        )
        .unwrap();
    assert_eq!(
        count, 1,
        "existing observations table must survive migration"
    );
}

#[test]
fn normalize_alias_lowercases_and_collapses_whitespace() {
    assert_eq!(normalize_alias("  Jane   DOE "), "jane doe");
}

#[test]
fn entity_slug_produces_kebab_case() {
    assert_eq!(entity_slug("Acme Corp, Inc."), "acme-corp-inc");
    assert_eq!(entity_slug("  Hello!!  World  "), "hello-world");
}

#[test]
fn validate_entity_rejects_unknown_kind() {
    assert!(validate_entity("alien", "X", "project").is_err());
    assert!(validate_entity("person", "Jane", "project").is_ok());
}

#[test]
fn validate_entity_rejects_empty_name() {
    assert!(validate_entity("person", "   ", "project").is_err());
}

#[test]
fn upsert_entity_strips_private_tags_from_name() {
    let mut db = Database::open_in_memory().unwrap();
    let e = db
        .upsert_entity(
            "person",
            "Jane <private>secret</private>",
            &["<private>also-secret</private> JD".to_string()],
            None,
            "project",
        )
        .unwrap();
    assert!(!e.canonical_name.contains("secret"));
    assert!(e.canonical_name.contains("[REDACTED]"));
    let alias_leak: i64 = db
        .connection()
        .query_row(
            "SELECT count(*) FROM entity_aliases WHERE alias_normalized LIKE '%secret%'",
            [],
            |r| r.get(0),
        )
        .unwrap();
    assert_eq!(
        alias_leak, 0,
        "no raw private value should be stored in aliases"
    );
}

#[test]
fn record_mentions_stubs_unknown_and_links() {
    let mut db = Database::open_in_memory().unwrap();
    let obs = db
        .save_observation("t", "c", "manual", None, "project", None, None, None)
        .unwrap();
    let resolved = db
        .record_mentions(
            obs.id,
            &["Acme Corp".to_string(), "Jane Doe".to_string()],
            None,
            "project",
        )
        .unwrap();
    assert_eq!(resolved.len(), 2);
    // both stubbed as kind "other", tier 3
    assert!(resolved.iter().all(|e| e.kind == "other" && e.tier == 3));
    // two mention rows
    let mentions: i64 = db
        .connection()
        .query_row("SELECT count(*) FROM mentions", [], |r| r.get(0))
        .unwrap();
    assert_eq!(mentions, 2);
    // one co_mentioned edge, stored src<dst
    let (src, dst, etype, ev): (i64, i64, String, i64) = db
        .connection()
        .query_row(
            "SELECT src_entity_id, dst_entity_id, edge_type, evidence_count FROM edges",
            [],
            |r| Ok((r.get(0)?, r.get(1)?, r.get(2)?, r.get(3)?)),
        )
        .unwrap();
    assert!(src < dst);
    assert_eq!(etype, "co_mentioned");
    assert_eq!(ev, 1);
}

#[test]
fn record_mentions_resolves_existing_alias_and_strengthens_edge() {
    let mut db = Database::open_in_memory().unwrap();
    // Pre-declare Acme with an alias
    let acme = db
        .upsert_entity(
            "company",
            "Acme Corp",
            &["Acme".to_string()],
            None,
            "project",
        )
        .unwrap();
    let o1 = db
        .save_observation("t1", "c1", "manual", None, "project", None, None, None)
        .unwrap();
    let r1 = db
        .record_mentions(
            o1.id,
            &["Acme".to_string(), "Bob".to_string()],
            None,
            "project",
        )
        .unwrap();
    // "Acme" resolves to the existing Acme Corp entity, not a new stub
    assert!(r1.iter().any(|e| e.id == acme.id));
    let entity_count: i64 = db
        .connection()
        .query_row("SELECT count(*) FROM entities", [], |r| r.get(0))
        .unwrap();
    assert_eq!(entity_count, 2, "Acme reused + Bob stub");

    // Second observation mentions the same pair → edge evidence_count increments
    let o2 = db
        .save_observation("t2", "c2", "manual", None, "project", None, None, None)
        .unwrap();
    db.record_mentions(
        o2.id,
        &["Acme Corp".to_string(), "Bob".to_string()],
        None,
        "project",
    )
    .unwrap();
    let edge_rows: i64 = db
        .connection()
        .query_row("SELECT count(*) FROM edges", [], |r| r.get(0))
        .unwrap();
    assert_eq!(edge_rows, 1, "same pair → single edge, not duplicated");
    let ev: i64 = db
        .connection()
        .query_row("SELECT evidence_count FROM edges", [], |r| r.get(0))
        .unwrap();
    assert_eq!(ev, 2);
}

#[test]
fn entity_neighbors_returns_other_end_strongest_first() {
    let mut db = Database::open_in_memory().unwrap();
    let o = db
        .save_observation("t", "c", "manual", None, "project", None, None, None)
        .unwrap();
    let resolved = db
        .record_mentions(
            o.id,
            &["Acme".to_string(), "Bob".to_string(), "Carol".to_string()],
            None,
            "project",
        )
        .unwrap();
    let acme = resolved
        .iter()
        .find(|e| e.canonical_name == "Acme")
        .unwrap();
    let neighbors = db.entity_neighbors(acme.id, 10).unwrap();
    // Acme co-mentioned with Bob and Carol → 2 neighbors, none of them Acme itself
    assert_eq!(neighbors.len(), 2);
    assert!(neighbors.iter().all(|n| n.entity.id != acme.id));
    assert!(neighbors.iter().all(|n| n.edge.edge_type == "co_mentioned"));
}

#[test]
fn add_mention_is_idempotent() {
    let mut db = Database::open_in_memory().unwrap();
    let o = db
        .save_observation("t", "c", "manual", None, "project", None, None, None)
        .unwrap();
    let e = db
        .upsert_entity("other", "X", &[], None, "project")
        .unwrap();
    db.add_mention(o.id, e.id).unwrap();
    db.add_mention(o.id, e.id).unwrap();
    let count: i64 = db
        .connection()
        .query_row("SELECT count(*) FROM mentions", [], |r| r.get(0))
        .unwrap();
    assert_eq!(count, 1);
}

#[test]
fn export_all_includes_entity_graph() {
    let mut db = Database::open_in_memory().unwrap();
    let o = db
        .save_observation("t", "c", "manual", None, "project", None, None, None)
        .unwrap();
    db.record_mentions(
        o.id,
        &["Acme".to_string(), "Bob".to_string()],
        None,
        "project",
    )
    .unwrap();

    let data = db.export_all().unwrap();
    assert_eq!(data.entities.len(), 2);
    assert!(data.entity_aliases.len() >= 2); // canonical alias per stub
    assert_eq!(data.edges.len(), 1); // co_mentioned Acme<->Bob
    assert_eq!(data.mentions.len(), 2);
}

#[test]
fn import_roundtrips_entity_graph_with_remapped_ids() {
    // Source DB with an observation + two co-mentioned entities.
    let mut src = Database::open_in_memory().unwrap();
    let o = src
        .save_observation(
            "meeting", "notes", "manual", None, "project", None, None, None,
        )
        .unwrap();
    src.record_mentions(
        o.id,
        &["Acme".to_string(), "Bob".to_string()],
        None,
        "project",
    )
    .unwrap();
    let data = src.export_all().unwrap();

    // Destination DB already has ONE unrelated entity, so autoincrement ids differ.
    let mut dst = Database::open_in_memory().unwrap();
    dst.upsert_entity("person", "Zara", &[], None, "project")
        .unwrap();

    let result = dst.import_data(&data).unwrap();
    assert_eq!(result.entities_imported, 2);
    assert_eq!(result.mentions_imported, 2);
    assert_eq!(result.edges_imported, 1);

    // The imported Acme entity resolves and has Bob as a neighbor — proving
    // edge/mention ids were remapped to the destination's entity ids.
    let acme = dst.get_entity_by_slug("acme", None, "project").unwrap();
    let neighbors = dst.entity_neighbors(acme.id, 10).unwrap();
    assert_eq!(neighbors.len(), 1);
    assert_eq!(neighbors[0].entity.canonical_name, "Bob");

    // Importing the same data again is idempotent (dedup): no duplicates.
    let again = dst.import_data(&data).unwrap();
    assert_eq!(again.entities_imported, 0);
    assert_eq!(again.edges_imported, 0);
    assert_eq!(again.mentions_imported, 0);
}

#[test]
fn import_old_export_without_entities_still_works() {
    let mut db = Database::open_in_memory().unwrap();
    let data = igris_memory::models::ExportData {
        version: 2,
        exported_at: "t".to_string(),
        observations: vec![],
        sessions: vec![],
        entities: vec![],
        entity_aliases: vec![],
        edges: vec![],
        mentions: vec![],
    };
    let r = db.import_data(&data).unwrap();
    assert_eq!(r.entities_imported, 0);
}

#[test]
fn v1_database_upgrades_to_v2_preserving_data() {

    let dir = tempfile::tempdir().unwrap();
    let path = dir.path().join("v1_upgrade.db");

    // Simulate a Fase-0a (v1) database: apply ONLY SCHEMA_V1, set user_version = 1,
    // and insert one observation.
    {
        let conn = Connection::open(&path).unwrap();
        conn.execute_batch(SCHEMA_V1).unwrap();
        conn.execute_batch("PRAGMA user_version = 1;").unwrap();
        conn.execute(
            "INSERT INTO observations (type, title, content, scope) VALUES ('manual','t','c','project')",
            [],
        )
        .unwrap();
    }

    // Open through Database → migration must add v2 tables and bump user_version.
    {
        let mut db = igris_memory::db::Database::open(path.to_str().unwrap(), None).unwrap();
        let version: u32 = db
            .connection()
            .query_row("PRAGMA user_version", [], |r| r.get(0))
            .unwrap();
        assert_eq!(version, 5);
        for table in ["entities", "entity_aliases", "edges", "mentions"] {
            let n: i64 = db
                .connection()
                .query_row(
                    "SELECT count(*) FROM sqlite_master WHERE type='table' AND name=?1",
                    [table],
                    |r| r.get(0),
                )
                .unwrap();
            assert_eq!(n, 1, "v2 table {table} should exist after upgrade");
        }
        // Pre-existing v1 data survived.
        let obs_count: i64 = db
            .connection()
            .query_row("SELECT count(*) FROM observations", [], |r| r.get(0))
            .unwrap();
        assert_eq!(obs_count, 1);
    }

}

#[test]
fn entity_timeline_returns_mentioning_observations_recent_first() {
    let mut db = Database::open_in_memory().unwrap();
    let o1 = db
        .save_observation("first", "c1", "manual", None, "project", None, None, None)
        .unwrap();
    db.record_mentions(o1.id, &["Acme".to_string()], None, "project")
        .unwrap();
    let o2 = db
        .save_observation("second", "c2", "manual", None, "project", None, None, None)
        .unwrap();
    db.record_mentions(o2.id, &["Acme".to_string()], None, "project")
        .unwrap();

    let acme = db.get_entity_by_slug("acme", None, "project").unwrap();
    let tl = db.entity_timeline(acme.id, 10).unwrap();
    assert_eq!(tl.len(), 2);
    // most recent first
    assert_eq!(tl[0].id, o2.id);
    assert_eq!(tl[1].id, o1.id);
}

#[test]
fn compile_entity_truth_is_deterministic_and_persists() {
    let mut db = Database::open_in_memory().unwrap();
    let o = db
        .save_observation("kickoff", "c", "manual", None, "project", None, None, None)
        .unwrap();
    db.record_mentions(
        o.id,
        &["Acme".to_string(), "Bob".to_string()],
        None,
        "project",
    )
    .unwrap();
    let acme = db.get_entity_by_slug("acme", None, "project").unwrap();

    let truth1 = db.compile_entity_truth(acme.id).unwrap();
    assert!(truth1.contains("# Acme"));
    assert!(truth1.contains("Bob")); // co-mentioned neighbor listed
    assert!(truth1.contains("kickoff")); // recent mention title listed

    // Persisted into the row.
    let reloaded = db.get_entity(acme.id).unwrap();
    assert_eq!(reloaded.compiled_truth.as_deref(), Some(truth1.as_str()));
    assert!(reloaded.compiled_at.is_some());

    // Deterministic: same inputs → same output.
    let truth2 = db.compile_entity_truth(acme.id).unwrap();
    assert_eq!(truth1, truth2);
}

#[test]
fn entity_brief_bundles_truth_neighbors_and_recent() {
    let mut db = Database::open_in_memory().unwrap();
    let o = db
        .save_observation("meeting", "c", "manual", None, "project", None, None, None)
        .unwrap();
    db.record_mentions(
        o.id,
        &["Acme".to_string(), "Bob".to_string()],
        None,
        "project",
    )
    .unwrap();
    let acme = db.get_entity_by_slug("acme", None, "project").unwrap();

    let brief = db.entity_brief(acme.id).unwrap();
    assert_eq!(brief.entity.id, acme.id);
    assert!(brief.entity.compiled_truth.is_some()); // freshly compiled
    assert_eq!(brief.neighbors.len(), 1);
    assert_eq!(brief.neighbors[0].entity.canonical_name, "Bob");
    assert_eq!(brief.recent.len(), 1);
    assert_eq!(brief.recent[0].id, o.id);
}

#[test]
fn purge_succeeds_when_deleted_observation_has_mentions() {
    let mut db = Database::open_in_memory().unwrap();
    let o = db
        .save_observation("t", "c", "manual", None, "project", None, None, None)
        .unwrap();
    db.record_mentions(o.id, &["Acme".to_string()], None, "project")
        .unwrap();

    let mention_count_before: i64 = db
        .connection()
        .query_row(
            "SELECT count(*) FROM mentions WHERE observation_id = ?1",
            [o.id],
            |r| r.get(0),
        )
        .unwrap();
    assert_eq!(mention_count_before, 1);

    assert!(db.delete_observation(o.id).unwrap());

    let result = db.purge(0);
    assert!(
        result.is_ok(),
        "purge must succeed even when a purged observation has mentions rows: {result:?}"
    );
    assert_eq!(result.unwrap().observations_purged, 1);

    let obs_count: i64 = db
        .connection()
        .query_row(
            "SELECT count(*) FROM observations WHERE id = ?1",
            [o.id],
            |r| r.get(0),
        )
        .unwrap();
    assert_eq!(obs_count, 0, "observation should be hard-deleted");

    let mention_count_after: i64 = db
        .connection()
        .query_row(
            "SELECT count(*) FROM mentions WHERE observation_id = ?1",
            [o.id],
            |r| r.get(0),
        )
        .unwrap();
    assert_eq!(
        mention_count_after, 0,
        "mentions rows should cascade-delete with the observation"
    );
}

#[test]
fn search_entities_matches_by_alias_and_filters_kind() {
    let mut db = Database::open_in_memory().unwrap();
    db.upsert_entity(
        "company",
        "Acme Corp",
        &["ACME".to_string()],
        None,
        "project",
    )
    .unwrap();
    db.upsert_entity("person", "Jane Acme", &[], None, "project")
        .unwrap();

    // "acme" matches both (Acme Corp via alias, Jane Acme via canonical alias)
    let all = db.search_entities("acme", None, None, None, 20).unwrap();
    assert_eq!(all.len(), 2);
    // kind filter narrows to the company
    let companies = db
        .search_entities("acme", Some("company"), None, None, 20)
        .unwrap();
    assert_eq!(companies.len(), 1);
    assert_eq!(companies[0].canonical_name, "Acme Corp");
    // no match
    assert!(
        db.search_entities("zzz", None, None, None, 20)
            .unwrap()
            .is_empty()
    );
}

#[test]
fn list_entities_returns_recent_and_filters_kind() {
    let mut db = Database::open_in_memory().unwrap();
    db.upsert_entity("company", "Acme", &[], None, "project")
        .unwrap();
    db.upsert_entity("person", "Bob", &[], None, "project")
        .unwrap();
    db.upsert_entity("person", "Carol", &[], None, "project")
        .unwrap();

    let all = db.list_entities(None, None, None, 20).unwrap();
    assert_eq!(all.len(), 3);
    let people = db.list_entities(Some("person"), None, None, 20).unwrap();
    assert_eq!(people.len(), 2);
    assert!(people.iter().all(|e| e.kind == "person"));
}

#[test]
fn delete_entity_soft_deletes_and_hides_it() {
    let mut db = Database::open_in_memory().unwrap();
    let e = db
        .upsert_entity("person", "Zoe", &[], None, "project")
        .unwrap();
    assert!(db.delete_entity(e.id).unwrap());
    // hidden from get and list
    assert!(db.get_entity(e.id).is_err());
    assert!(db.list_entities(None, None, None, 20).unwrap().is_empty());
    // deleting again returns false
    assert!(!db.delete_entity(e.id).unwrap());
}

#[test]
fn unlink_entities_removes_edge_either_direction() {
    let mut db = Database::open_in_memory().unwrap();
    let o = db
        .save_observation("t", "c", "manual", None, "project", None, None, None)
        .unwrap();
    let resolved = db
        .record_mentions(
            o.id,
            &["Acme".to_string(), "Bob".to_string()],
            None,
            "project",
        )
        .unwrap();
    let acme = resolved
        .iter()
        .find(|e| e.canonical_name == "Acme")
        .unwrap();
    let bob = resolved.iter().find(|e| e.canonical_name == "Bob").unwrap();
    assert_eq!(db.entity_neighbors(acme.id, 10).unwrap().len(), 1);

    // unlink using the reversed direction still matches the stored min<max edge
    let removed = db.unlink_entities(bob.id, acme.id, "co_mentioned").unwrap();
    assert_eq!(removed, 1);
    assert_eq!(db.entity_neighbors(acme.id, 10).unwrap().len(), 0);
}

#[test]
fn update_entity_sets_kind_tier_salience_and_adds_alias() {
    let mut db = Database::open_in_memory().unwrap();
    let e = db
        .upsert_entity("other", "Acme", &[], None, "project")
        .unwrap();
    let original_slug = e.slug.clone();

    let updated = db
        .update_entity(
            e.id,
            Some("company"),
            Some(1),
            Some("0.75"),
            &["Acme Corp".to_string()],
        )
        .unwrap();

    assert_eq!(updated.id, e.id);
    assert_eq!(updated.kind, "company");
    assert_eq!(updated.tier, 1);
    assert_eq!(updated.salience, "0.75");
    assert_eq!(updated.slug, original_slug, "slug must not change");

    // Reload independently to make sure the changes were persisted, not just returned.
    let reloaded = db.get_entity(e.id).unwrap();
    assert_eq!(reloaded.kind, "company");
    assert_eq!(reloaded.tier, 1);
    assert_eq!(reloaded.salience, "0.75");

    // The added alias resolves back to the same entity.
    let resolved = db
        .resolve_or_stub_entity("Acme Corp", None, "project")
        .unwrap();
    assert_eq!(resolved.id, e.id);
}

#[test]
fn update_entity_requires_at_least_one_field() {
    let mut db = Database::open_in_memory().unwrap();
    let e = db
        .upsert_entity("other", "Zed", &[], None, "project")
        .unwrap();
    let err = db.update_entity(e.id, None, None, None, &[]).unwrap_err();
    assert_eq!(err.code, ErrorCode::ValidationError);
}

#[test]
fn update_entity_returns_not_found_for_missing_id() {
    let mut db = Database::open_in_memory().unwrap();
    let err = db
        .update_entity(9999, Some("company"), None, None, &[])
        .unwrap_err();
    assert_eq!(err.code, ErrorCode::NotFound);
}

#[test]
fn stats_counts_entities_and_edges() {
    let mut db = Database::open_in_memory().unwrap();
    let o = db
        .save_observation("t", "c", "manual", None, "project", None, None, None)
        .unwrap();
    db.record_mentions(
        o.id,
        &["Acme".to_string(), "Bob".to_string()],
        None,
        "project",
    )
    .unwrap();
    let s = db.stats().unwrap();
    assert_eq!(s.total_entities, 2);
    assert_eq!(s.total_edges, 1);
}

#[test]
fn merge_entities_moves_aliases_mentions_and_edges_then_hides_source() {
    let mut db = Database::open_in_memory().unwrap();
    let target = db
        .upsert_entity("company", "Acme Corp", &[], None, "project")
        .unwrap();
    let source = db
        .upsert_entity("company", "Acme Inc", &[], None, "project")
        .unwrap();
    let carol = db
        .upsert_entity("person", "Carol", &[], None, "project")
        .unwrap();

    db.update_entity(source.id, None, None, None, &["Acme Legacy".to_string()])
        .unwrap();

    let o = db
        .save_observation(
            "kickoff", "notes", "manual", None, "project", None, None, None,
        )
        .unwrap();
    db.add_mention(o.id, source.id).unwrap();
    db.upsert_edge(source.id, carol.id, "co_mentioned").unwrap();

    let merged = db.merge_entities(source.id, target.id).unwrap();
    assert_eq!(merged.id, target.id);
    assert_eq!(merged.canonical_name, "Acme Corp");

    // Source's own name and its alias now resolve to target.
    let by_source_name = db
        .resolve_or_stub_entity("Acme Inc", None, "project")
        .unwrap();
    assert_eq!(by_source_name.id, target.id);
    let by_alias = db
        .resolve_or_stub_entity("Acme Legacy", None, "project")
        .unwrap();
    assert_eq!(by_alias.id, target.id);

    // Target's timeline now includes source's observation.
    let timeline = db.entity_timeline(target.id, 10).unwrap();
    assert!(timeline.iter().any(|obs| obs.id == o.id));

    // Target now has Carol as a neighbor (edge moved, not dropped).
    let neighbors = db.entity_neighbors(target.id, 10).unwrap();
    assert!(neighbors.iter().any(|n| n.entity.id == carol.id));

    // Source is hidden everywhere.
    assert!(db.get_entity(source.id).is_err());
    let listed = db.list_entities(None, None, None, 100).unwrap();
    assert!(!listed.iter().any(|e| e.id == source.id));
}

#[test]
fn merge_entities_dedupes_mention_shared_with_target() {
    let mut db = Database::open_in_memory().unwrap();
    let target = db
        .upsert_entity("company", "Acme Corp", &[], None, "project")
        .unwrap();
    let source = db
        .upsert_entity("company", "Acme Inc", &[], None, "project")
        .unwrap();
    let o = db
        .save_observation("t", "c", "manual", None, "project", None, None, None)
        .unwrap();
    // Same observation mentions BOTH source and target already.
    db.add_mention(o.id, source.id).unwrap();
    db.add_mention(o.id, target.id).unwrap();

    // Must not panic/error with a UNIQUE constraint violation.
    db.merge_entities(source.id, target.id).unwrap();

    let count: i64 = db
        .connection()
        .query_row(
            "SELECT count(*) FROM mentions WHERE observation_id = ?1 AND entity_id = ?2",
            [o.id, target.id],
            |r| r.get(0),
        )
        .unwrap();
    assert_eq!(
        count, 1,
        "exactly one mention row for (observation, target)"
    );
}

#[test]
fn merge_entities_drops_would_be_self_loop_edge() {
    let mut db = Database::open_in_memory().unwrap();
    let target = db
        .upsert_entity("company", "Acme Corp", &[], None, "project")
        .unwrap();
    let source = db
        .upsert_entity("company", "Acme Inc", &[], None, "project")
        .unwrap();
    // Source and target are directly connected before the merge.
    db.upsert_edge(source.id, target.id, "co_mentioned")
        .unwrap();

    db.merge_entities(source.id, target.id).unwrap();

    let self_loops: i64 = db
        .connection()
        .query_row(
            "SELECT count(*) FROM edges
             WHERE src_entity_id = ?1 AND dst_entity_id = ?1 AND deleted_at IS NULL",
            [target.id],
            |r| r.get(0),
        )
        .unwrap();
    assert_eq!(self_loops, 0, "must not create a target-target self-loop");

    let neighbors = db.entity_neighbors(target.id, 10).unwrap();
    assert!(
        !neighbors.iter().any(|n| n.entity.id == target.id),
        "target must never appear as its own neighbor"
    );
}

#[test]
fn merge_entities_preserves_direction_of_directed_edges() {
    let mut db = Database::open_in_memory().unwrap();
    let target = db
        .upsert_entity("company", "Acme Corp", &[], None, "project")
        .unwrap();
    let source = db
        .upsert_entity("company", "Acme Inc", &[], None, "project")
        .unwrap();
    let dana = db
        .upsert_entity("person", "Dana", &[], None, "project")
        .unwrap();

    // source -> dana ("employs"), directed.
    db.upsert_edge(source.id, dana.id, "employs").unwrap();

    db.merge_entities(source.id, target.id).unwrap();

    let forward: i64 = db
        .connection()
        .query_row(
            "SELECT count(*) FROM edges
             WHERE src_entity_id = ?1 AND dst_entity_id = ?2 AND edge_type = 'employs'
               AND deleted_at IS NULL",
            [target.id, dana.id],
            |r| r.get(0),
        )
        .unwrap();
    assert_eq!(forward, 1, "direction target->dana must be preserved");

    let reversed: i64 = db
        .connection()
        .query_row(
            "SELECT count(*) FROM edges
             WHERE src_entity_id = ?1 AND dst_entity_id = ?2 AND edge_type = 'employs'
               AND deleted_at IS NULL",
            [dana.id, target.id],
            |r| r.get(0),
        )
        .unwrap();
    assert_eq!(reversed, 0, "must not flip direction");
}

#[test]
fn merge_entities_into_self_is_rejected() {
    let mut db = Database::open_in_memory().unwrap();
    let e = db
        .upsert_entity("company", "Acme Corp", &[], None, "project")
        .unwrap();
    let err = db.merge_entities(e.id, e.id).unwrap_err();
    assert_eq!(err.code, ErrorCode::ValidationError);
}

#[test]
fn merge_entities_with_missing_ids_returns_not_found() {
    let mut db = Database::open_in_memory().unwrap();
    let e = db
        .upsert_entity("company", "Acme Corp", &[], None, "project")
        .unwrap();

    let err_missing_source = db.merge_entities(9999, e.id).unwrap_err();
    assert_eq!(err_missing_source.code, ErrorCode::NotFound);

    let err_missing_target = db.merge_entities(e.id, 9999).unwrap_err();
    assert_eq!(err_missing_target.code, ErrorCode::NotFound);
}

#[test]
fn save_with_mentions_links_entities_and_keeps_the_save() {
    let mut db = Database::open_in_memory().unwrap();
    let mentions = vec!["Jane Doe".to_string(), "Acme Corp".to_string()];
    let (saved, link_error) = db.save_with_mentions(
        "Kickoff",
        "Jane met Acme",
        "discovery",
        Some("proj"),
        "project",
        None,
        None,
        None,
        Some(&mentions),
    );
    let obs = saved.unwrap();
    assert!(link_error.is_none());
    assert!(obs.id > 0);
    assert!(db.get_entity_by_slug("jane-doe", Some("proj"), "project").is_ok());
    assert!(db.get_entity_by_slug("acme-corp", Some("proj"), "project").is_ok());

    let (refused, link_error) =
        db.save_with_mentions("", "content", "discovery", None, "project", None, None, None, Some(&mentions));
    assert_eq!(refused.unwrap_err().code, ErrorCode::ValidationError);
    assert!(link_error.is_none());
}

#[test]
fn igris_save_wires_mentions_when_present() {
    let mut db = Database::open_in_memory().unwrap();
    let mentions = vec!["Mentioned Person".to_string()];
    let (saved, link_error) = db.save_with_mentions(
        "mentions test",
        "content about someone",
        &default_type(),
        None,
        &default_scope(),
        None,
        None,
        None,
        Some(&mentions),
    );
    assert!(link_error.is_none());
    let obs_id = saved.unwrap().id;
    let entity = db.get_entity_by_slug("mentioned-person", None, "project").unwrap();
    assert_eq!(entity.canonical_name, "Mentioned Person");
    let mention_count: i64 = db
        .connection()
        .query_row(
            "SELECT COUNT(*) FROM mentions WHERE observation_id = ?1 AND entity_id = ?2",
            [obs_id, entity.id],
            |r| r.get(0),
        )
        .unwrap();
    assert_eq!(mention_count, 1, "expected a mentions row linking the observation to the entity");
}

#[test]
fn record_mentions_of_blank_names_links_nothing() {
    let mut db = Database::open_in_memory().unwrap();
    let obs = db
        .save_observation("Blank", "no names here", "discovery", None, "project", None, None, None)
        .unwrap();
    let blanks = vec!["   ".to_string(), String::new()];
    let linked = db.record_mentions(obs.id, &blanks, None, "project").unwrap();
    assert!(linked.is_empty());
}
