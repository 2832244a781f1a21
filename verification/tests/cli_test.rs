use igris_memory::cli::{path_join, should_rebuild_index, Cli, EmbedderConfig};

#[test]
fn should_rebuild_index_truth_table() {
    assert!(should_rebuild_index(true, true));
    assert!(!should_rebuild_index(true, false));
    assert!(!should_rebuild_index(false, true));
    assert!(!should_rebuild_index(false, false));
}

fn cli() -> Cli {
    Cli {
        data_dir: None,
        project_scoped: false,
        project: None,
        db_key: None,
        embedder: None,
        embed_model: None,
        embed_url: None,
        vector_index: None,
        command: None,
    }
}

#[test]
fn data_dir_prefers_the_option_then_the_environment_then_home() {
    let mut c = cli();
    assert_eq!(c.resolve_data_dir(None, Some("/home/u".to_string())), "/home/u/.igris");
    assert_eq!(c.resolve_data_dir(None, None), "./.igris");
    assert_eq!(c.resolve_data_dir(Some("/env".to_string()), Some("/home/u".to_string())), "/env");
    c.data_dir = Some("/opt".to_string());
    assert_eq!(c.resolve_data_dir(Some("/env".to_string()), None), "/opt");
}

#[test]
fn db_path_is_per_project_when_scoped() {
    let mut c = cli();
    assert_eq!(c.resolve_db_path("/d", Some("repo".to_string())), "/d/memory.db");
    c.project_scoped = true;
    assert_eq!(c.resolve_db_path("/d", Some("repo".to_string())), "/d/projects/repo/memory.db");
    assert_eq!(c.resolve_db_path("/d/", None), "/d/projects/default/memory.db");
    c.project = Some("web".to_string());
    assert_eq!(c.resolve_db_path("/d", Some("repo".to_string())), "/d/projects/web/memory.db");
}

#[test]
fn path_join_adds_one_separator() {
    assert_eq!(path_join("a", "b"), "a/b");
    assert_eq!(path_join("a/", "b"), "a/b");
    assert_eq!(path_join("", "b"), "b");
}

#[test]
fn db_key_prefers_the_option() {
    let mut c = cli();
    assert_eq!(c.resolve_db_key(None), None);
    assert_eq!(c.resolve_db_key(Some("env".to_string())), Some("env".to_string()));
    c.db_key = Some("opt".to_string());
    assert_eq!(c.resolve_db_key(Some("env".to_string())), Some("opt".to_string()));
}

#[test]
fn embedder_config_selects_hash_ollama_or_none() {
    let mut c = cli();
    assert!(c.embedder_config(None, None, None).is_none());
    assert!(c.embedder_config(Some("none".to_string()), None, None).is_none());
    match c.embedder_config(Some("hash".to_string()), None, None) {
        Some(EmbedderConfig::Hash { dim }) => assert_eq!(dim, 256),
        other => panic!("unexpected {other:?}"),
    }
    match c.embedder_config(Some("ollama".to_string()), None, None) {
        Some(EmbedderConfig::Ollama { url, model }) => {
            assert_eq!(url, "http://localhost:11434");
            assert_eq!(model, "nomic-embed-text");
        }
        other => panic!("unexpected {other:?}"),
    }
    c.embedder = Some("ollama".to_string());
    c.embed_model = Some("m1".to_string());
    match c.embedder_config(Some("hash".to_string()), Some("m2".to_string()), Some("http://e".to_string())) {
        Some(EmbedderConfig::Ollama { url, model }) => {
            assert_eq!(url, "http://e");
            assert_eq!(model, "m1");
        }
        other => panic!("unexpected {other:?}"),
    }
}

#[test]
fn vector_index_is_enabled_only_by_vec() {
    let mut c = cli();
    assert!(!c.vector_index_enabled(None));
    assert!(c.vector_index_enabled(Some("vec".to_string())));
    assert!(!c.vector_index_enabled(Some("brute".to_string())));
    c.vector_index = Some("brute".to_string());
    assert!(!c.vector_index_enabled(Some("vec".to_string())));
}
