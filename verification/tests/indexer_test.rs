use igris_memory::codegraph::indexer::{index_files, DiscoveredFile};
use igris_memory::codegraph::language::Language;
use igris_memory::db::Database;
use igris_memory::text::hash_content;

fn file(path: &str, language: Language, source: Option<&str>) -> (DiscoveredFile, Option<String>) {
    (
        DiscoveredFile {
            relative_path: path.to_string(),
            absolute_path: format!("/repo/{path}"),
            language,
            content_hash: hash_content(source.unwrap_or("")),
        },
        source.map(|s| s.to_string()),
    )
}

#[test]
fn index_project_indexes_new_files_and_skips_unchanged_on_second_run() {
    let mut db = Database::open_in_memory().unwrap();
    let files = vec![file("main.rs", Language::Rust, Some("fn main() {}\n"))];

    let first = index_files(&mut db, "igris-memory", "/repo", &files);
    assert_eq!(first.files_indexed, 1);
    assert_eq!(first.files_unchanged, 0);

    let second = index_files(&mut db, "igris-memory", "/repo", &files);
    assert_eq!(second.files_indexed, 0);
    assert_eq!(second.files_unchanged, 1);
}

#[test]
fn index_project_soft_deletes_files_removed_from_disk() {
    let mut db = Database::open_in_memory().unwrap();
    let files = vec![file("gone.rs", Language::Rust, Some("fn a() {}\n"))];
    index_files(&mut db, "igris-memory", "/repo", &files);

    let summary = index_files(&mut db, "igris-memory", "/repo", &vec![]);
    assert_eq!(summary.files_deleted, 1);
}

#[test]
fn index_files_counts_unsupported_and_unreadable_files() {
    let mut db = Database::open_in_memory().unwrap();
    let files = vec![
        file("a.py", Language::Python, Some("def a(): pass\n")),
        file("b.rs", Language::Rust, None),
        file("c.c", Language::C, Some("int main() { return 0; }\n")),
    ];
    let s = index_files(&mut db, "p", "/repo", &files);
    assert_eq!(s.files_skipped_unsupported, 1);
    assert_eq!(s.files_failed_parse, 1);
    assert_eq!(s.files_indexed, 1);
    assert_eq!(s.files_unchanged, 0);
    assert_eq!(s.files_deleted, 0);

    let nodes = db.search_code_nodes("main", None, None, Some("p"), 10).unwrap();
    assert!(!nodes.is_empty());
}
