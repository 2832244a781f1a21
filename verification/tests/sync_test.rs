use igris_memory::models::ExportData;
use igris_memory::sync::{chunk_count, chunk_file_name, chunk_range, manifest_for, CHUNK_SIZE};

#[test]
fn chunk_file_names_are_zero_padded() {
    assert_eq!(chunk_file_name(0), "chunk_0000.json");
    assert_eq!(chunk_file_name(7), "chunk_0007.json");
    assert_eq!(chunk_file_name(123), "chunk_0123.json");
    assert_eq!(chunk_file_name(12345), "chunk_12345.json");
}

#[test]
fn chunks_cover_the_observations_in_order() {
    assert_eq!(CHUNK_SIZE, 100);
    assert_eq!(chunk_count(0), 0);
    assert_eq!(chunk_count(1), 1);
    assert_eq!(chunk_count(100), 1);
    assert_eq!(chunk_count(101), 2);
    assert_eq!(chunk_range(250, 0), (0, 100));
    assert_eq!(chunk_range(250, 2), (200, 250));
    assert_eq!(chunk_range(200, 1), (100, 200));
}

#[test]
fn manifest_counts_the_export() {
    let data = ExportData {
        version: 1,
        exported_at: "t".to_string(),
        observations: vec![],
        sessions: vec![],
        entities: vec![],
        entity_aliases: vec![],
        edges: vec![],
        mentions: vec![],
    };
    let m = manifest_for(&data, "now".to_string(), "host".to_string());
    assert_eq!(m.version, 1);
    assert_eq!(m.observation_count, 0);
    assert_eq!(m.session_count, 0);
    assert_eq!(m.chunk_size, 100);
    assert_eq!(m.chunk_count, 0);
    assert_eq!(m.machine_id, "host");
    assert_eq!(m.exported_at, "now");
}
