use igris_memory::db::Database;
use igris_memory::embed::{HashEmbedder, OllamaEmbedder};

#[test]
fn hash_embedder_pins_bucket_and_sign_for_known_tokens() {
    let e = HashEmbedder::new(4);
    // "a": h = 4953267810257967366 -> idx = h % 4 = 2, top bit clear -> sign = +1
    assert_eq!(e.bucket_sums("a"), vec![0, 0, 1, 0]);
    // "test": h = 10905494432584914231 -> idx = h % 4 = 3, top bit set -> sign = -1
    assert_eq!(e.bucket_sums("test"), vec![0, 0, 0, -1]);
}

#[test]
fn hash_embedder_empty_input_yields_zero_vector_without_dividing() {
    let e = HashEmbedder::new(4);
    assert_eq!(e.bucket_sums(""), vec![0, 0, 0, 0]);
}

#[test]
fn hash_embedder_dimensions_returns_configured_dim() {
    assert_eq!(HashEmbedder::new(7).dimensions(), 7);
}

#[test]
fn hash_embedder_has_at_least_one_bucket_and_a_stable_model() {
    let e = HashEmbedder::new(0);
    assert_eq!(e.dimensions(), 1);
    // one bucket: every token lands in it ("x", "y" and "z" all hash with the top bit clear)
    assert_eq!(e.bucket_sums("x y z"), vec![3]);
    assert_eq!(e.model(), "hash-v1");
}

#[test]
fn hash_embedder_tokens_are_lowercased_and_split_on_whitespace() {
    let e = HashEmbedder::new(16);
    assert_eq!(e.bucket_sums("Alpha  BETA\tgamma\n"), e.bucket_sums("alpha beta gamma"));
    // a repeated token adds its sign twice to the same bucket
    let once = e.bucket_sums("test");
    let twice = e.bucket_sums("test TEST");
    for (a, b) in once.iter().zip(twice.iter()) {
        assert_eq!(*b, 2 * *a);
    }
    assert_eq!(once.iter().map(|x| x.abs()).sum::<i64>(), 1);
}

#[test]
fn ollama_embedder_dimensions_is_always_zero() {
    let embedder = OllamaEmbedder::new("http://localhost:11434".to_string(), "llama3".to_string());
    assert_eq!(embedder.dimensions(), 0);
}

#[test]
fn ollama_embedder_model_roundtrips_exactly() {
    let embedder = OllamaEmbedder::new("http://localhost:11434".to_string(), "llama3".to_string());
    assert_eq!(embedder.model(), "llama3");
}

#[test]
fn ollama_embedder_drops_trailing_slashes_of_the_url() {
    let embedder = OllamaEmbedder::new("http://host:1//".to_string(), "m".to_string());
    assert_eq!(embedder.url(), "http://host:1");
    let plain = OllamaEmbedder::new("http://host:1".to_string(), "m".to_string());
    assert_eq!(plain.url(), "http://host:1");
    let slashes = OllamaEmbedder::new("///".to_string(), "m".to_string());
    assert_eq!(slashes.url(), "");
}

fn blob(values: &[u32]) -> Vec<u8> {
    values.iter().flat_map(|v| v.to_le_bytes()).collect()
}

#[test]
fn observations_needing_embedding_excludes_embedded() {
    let mut db = Database::open_in_memory().unwrap();
    let a = db
        .save_observation("a", "one", "manual", None, "project", None, None, None)
        .unwrap();
    let b = db
        .save_observation("b", "two", "manual", None, "project", None, None, None)
        .unwrap();
    db.store_embedding("observation", a.id, "hash-v1", &blob(&[1, 2])).unwrap();

    let need = db.observations_needing_embedding("hash-v1").unwrap();
    assert_eq!(need.len(), 1);
    assert_eq!(need[0].0, b.id);
    assert_eq!(need[0].1, "two");
}

#[test]
fn store_embedding_replaces_and_candidates_carry_the_bytes() {
    let mut db = Database::open_in_memory().unwrap();
    let a = db
        .save_observation("a", "one", "manual", Some("p"), "project", None, None, None)
        .unwrap();
    let b = db
        .save_observation("b", "two", "bugfix", Some("p"), "project", None, None, None)
        .unwrap();
    db.store_embedding("observation", a.id, "m", &blob(&[1, 2])).unwrap();
    db.store_embedding("observation", a.id, "m", &blob(&[3, 4])).unwrap();
    db.store_embedding("observation", b.id, "m", &blob(&[5, 6])).unwrap();

    let rows: i64 = db
        .connection()
        .query_row("SELECT count(*) FROM embeddings WHERE object_id = ?1", [a.id], |r| r.get(0))
        .unwrap();
    assert_eq!(rows, 1);
    let dim: i64 = db
        .connection()
        .query_row("SELECT dim FROM embeddings WHERE object_id = ?1", [a.id], |r| r.get(0))
        .unwrap();
    assert_eq!(dim, 2);

    let all = db.embedding_candidates("m", None, None).unwrap();
    assert_eq!(all.len(), 2);
    let of_a = all.iter().find(|(o, _)| o.id == a.id).unwrap();
    assert_eq!(of_a.1, blob(&[3, 4]));

    let bugfixes = db.embedding_candidates("m", Some("bugfix"), Some("p")).unwrap();
    assert_eq!(bugfixes.len(), 1);
    assert_eq!(bugfixes[0].0.id, b.id);

    db.delete_observation(b.id).unwrap();
    assert_eq!(db.embedding_candidates("m", None, None).unwrap().len(), 1);
    assert!(db.embedding_candidates("other-model", None, None).unwrap().is_empty());
}

#[test]
fn ollama_endpoint_joins_url_and_path() {
    let e = igris_memory::embed::OllamaEmbedder::new("http://localhost:11434/".to_string(), "nomic".to_string());
    assert_eq!(e.endpoint(), "http://localhost:11434/api/embeddings");
}
