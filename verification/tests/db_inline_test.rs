use igris_memory::db::Database;

fn test_db() -> Database {
    Database::open_in_memory().expect("failed to create in-memory db")
}

fn count(pairs: &[(String, i64)], key: &str) -> i64 {
    pairs.iter().find(|(k, _)| k == key).map(|(_, n)| *n).expect("key present")
}

#[test]
fn db_save_and_get() {
    let mut db = test_db();
    let obs = db
        .save_observation("Test title", "Test content", "decision", Some("myproj"), "project", None, None, None)
        .unwrap();
    assert_eq!(obs.title, "Test title");
    assert_eq!(obs.observation_type, "decision");

    let fetched = db.get_observation(obs.id).unwrap();
    assert_eq!(fetched.content, "Test content");
}

#[test]
fn db_privacy_stripping() {
    let mut db = test_db();
    let obs = db
        .save_observation("Keys", "Use <private>sk-secret</private> for auth", "config", None, "project", None, None, None)
        .unwrap();
    assert_eq!(obs.content, "Use [REDACTED] for auth");
}

#[test]
fn db_topic_key_upsert() {
    let mut db = test_db();
    let first = db
        .save_observation("Auth v1", "JWT tokens", "decision", Some("p"), "project", Some("arch/auth"), None, None)
        .unwrap();
    assert_eq!(first.revision_count, 1);

    let second = db
        .save_observation("Auth v2", "OAuth2 + PKCE", "decision", Some("p"), "project", Some("arch/auth"), None, None)
        .unwrap();
    assert_eq!(second.id, first.id, "should update same row");
    assert_eq!(second.revision_count, 2);
    assert_eq!(second.content, "OAuth2 + PKCE");
}

#[test]
fn db_soft_delete() {
    let mut db = test_db();
    let obs = db
        .save_observation("Delete me", "content", "manual", None, "project", None, None, None)
        .unwrap();
    assert!(db.delete_observation(obs.id).unwrap());

    let deleted = db.get_observation(obs.id).unwrap();
    assert!(deleted.deleted_at.is_some());
}

#[test]
fn db_search_finds_results() {
    let mut db = test_db();
    db.save_observation("Auth middleware", "JWT validation in Express", "decision", Some("web"), "project", None, None, None).unwrap();
    db.save_observation("Database setup", "PostgreSQL with Drizzle ORM", "config", Some("web"), "project", None, None, None).unwrap();

    let results = db.search("JWT middleware", None, None, None).unwrap();
    assert!(!results.is_empty());
    assert!(results[0].observation.title.contains("Auth"));
}

#[test]
fn db_context_returns_recent() {
    let mut db = test_db();
    for i in 0..5 {
        db.save_observation(&format!("Obs {i}"), &format!("Content {i}"), "manual", Some("proj"), "project", None, None, None).unwrap();
    }
    let ctx = db.recent_context(Some("proj"), Some(3)).unwrap();
    assert_eq!(ctx.len(), 3);
}

#[test]
fn db_session_lifecycle() {
    let mut db = test_db();
    let s = db.start_session("s1", "myproj", Some("/code")).unwrap();
    assert!(s.ended_at.is_none());

    let s = db.end_session("s1", Some("Done with auth")).unwrap();
    assert!(s.ended_at.is_some());
    assert_eq!(s.summary.as_deref(), Some("Done with auth"));
}

#[test]
fn db_stats_counts() {
    let mut db = test_db();
    db.save_observation("A", "a", "decision", Some("p1"), "project", None, None, None).unwrap();
    db.save_observation("B", "b", "bugfix", Some("p1"), "project", None, None, None).unwrap();
    db.save_observation("C", "c", "decision", Some("p2"), "project", None, None, None).unwrap();
    db.start_session("s1", "p1", None).unwrap();

    let stats = db.stats().unwrap();
    assert_eq!(stats.total_observations, 3);
    assert_eq!(stats.total_sessions, 1);
    assert_eq!(count(&stats.by_type, "decision"), 2);
    assert_eq!(count(&stats.by_project, "p1"), 2);
}

#[test]
fn db_save_rejects_empty_title() {
    let mut db = test_db();
    let err = db.save_observation("", "content", "decision", None, "project", None, None, None);
    assert!(err.is_err());
    assert_eq!(err.unwrap_err().code, igris_memory::errors::ErrorCode::ValidationError);
}

#[test]
fn db_save_rejects_invalid_type() {
    let mut db = test_db();
    let err = db.save_observation("Title", "content", "invalid", None, "project", None, None, None);
    assert!(err.is_err());
    assert_eq!(err.unwrap_err().code, igris_memory::errors::ErrorCode::ValidationError);
}

#[test]
fn db_save_rejects_invalid_scope() {
    let mut db = test_db();
    let err = db.save_observation("Title", "content", "decision", None, "global", None, None, None);
    assert!(err.is_err());
    assert_eq!(err.unwrap_err().code, igris_memory::errors::ErrorCode::ValidationError);
}

#[test]
fn db_search_rejects_empty_query() {
    let mut db = test_db();
    let err = db.search("", None, None, None);
    assert!(err.is_err());
    assert_eq!(err.unwrap_err().code, igris_memory::errors::ErrorCode::ValidationError);
}

#[test]
fn db_search_rejects_zero_limit() {
    let mut db = test_db();
    let err = db.search("test", None, None, Some(0));
    assert!(err.is_err());
    assert_eq!(err.unwrap_err().code, igris_memory::errors::ErrorCode::ValidationError);
}

#[test]
fn db_update_rejects_empty_fields() {
    let mut db = test_db();
    let obs = db.save_observation("T", "C", "manual", None, "project", None, None, None).unwrap();
    let err = db.update_observation(obs.id, None, None, None, None, None);
    assert!(err.is_err());
    assert_eq!(err.unwrap_err().code, igris_memory::errors::ErrorCode::ValidationError);
}

#[test]
fn db_update_rejects_invalid_type() {
    let mut db = test_db();
    let obs = db.save_observation("T", "C", "manual", None, "project", None, None, None).unwrap();
    let err = db.update_observation(obs.id, None, None, Some("nope"), None, None);
    assert!(err.is_err());
    assert_eq!(err.unwrap_err().code, igris_memory::errors::ErrorCode::ValidationError);
}

#[test]
fn db_session_rejects_empty_id() {
    let mut db = test_db();
    let err = db.start_session("", "proj", None);
    assert!(err.is_err());
    assert_eq!(err.unwrap_err().code, igris_memory::errors::ErrorCode::ValidationError);
}

#[test]
fn db_session_rejects_empty_project() {
    let mut db = test_db();
    let err = db.start_session("s1", "", None);
    assert!(err.is_err());
    assert_eq!(err.unwrap_err().code, igris_memory::errors::ErrorCode::ValidationError);
}
