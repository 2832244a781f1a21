//! The records the store keeps and returns.

use vstd::prelude::*;

verus! {

/// A single memory unit: a decision, bugfix, pattern, or any knowledge
/// worth persisting.
#[derive(Debug, Clone)]
pub struct Observation {
    pub id: i64,
    pub session_id: Option<String>,
    pub observation_type: String,
    pub title: String,
    pub content: String,
    pub project: Option<String>,
    pub scope: String,
    pub topic_key: Option<String>,
    pub tags: Option<Vec<String>>,
    pub revision_count: i32,
    pub duplicate_count: i32,
    pub created_at: String,
    pub updated_at: String,
    pub deleted_at: Option<String>,
}

/// A working session — groups observations by time period.
#[derive(Debug, Clone)]
pub struct Session {
    pub id: String,
    pub project: String,
    pub directory: Option<String>,
    pub started_at: String,
    pub ended_at: Option<String>,
    pub summary: Option<String>,
}

/// A keyword search hit: the observation, the engine's relevance rank (as
/// decimal text; lower is better) and a highlighted snippet.
#[derive(Debug, Clone)]
pub struct SearchResult {
    pub observation: Observation,
    pub rank: String,
    pub snippet: Option<String>,
}

/// Chronological view around an observation.
#[derive(Debug, Clone)]
pub struct Timeline {
    pub anchor: Observation,
    pub before: Vec<Observation>,
    pub after: Vec<Observation>,
}

/// Result of a purge operation.
#[derive(Debug, Clone)]
pub struct PurgeResult {
    pub observations_purged: i64,
}

/// Aggregate statistics about the memory store; the breakdowns are
/// (key, count) pairs, one per distinct key.
#[derive(Debug, Clone)]
pub struct Stats {
    pub total_observations: i64,
    pub total_sessions: i64,
    pub active_sessions: i64,
    pub total_entities: i64,
    pub total_edges: i64,
    pub by_type: Vec<(String, i64)>,
    pub by_project: Vec<(String, i64)>,
}

/// An observation that no entity mention links yet.
#[derive(Debug, Clone)]
pub struct BackfillCandidate {
    pub id: i64,
    pub title: String,
    pub content: String,
    pub observation_type: String,
    pub created_at: String,
    pub entities_reviewed_at: Option<String>,
}

/// A first-class knowledge node: a person, company, project, concept, etc.
/// `salience` is the decimal text of the stored real.
#[derive(Debug, Clone)]
pub struct Entity {
    pub id: i64,
    pub kind: String,
    pub canonical_name: String,
    pub slug: String,
    pub tier: i32,
    pub salience: String,
    pub compiled_truth: Option<String>,
    pub compiled_at: Option<String>,
    pub project: Option<String>,
    pub scope: String,
    pub created_at: String,
    pub updated_at: String,
    pub deleted_at: Option<String>,
}

/// A typed relation between two entities. Symmetric edges (`co_mentioned`)
/// are stored once with `src_entity_id < dst_entity_id`. `confidence` is the
/// decimal text of the stored real.
#[derive(Debug, Clone)]
pub struct Edge {
    pub id: i64,
    pub src_entity_id: i64,
    pub dst_entity_id: i64,
    pub edge_type: String,
    pub evidence_count: i64,
    pub confidence: String,
    pub first_seen: String,
    pub last_seen: String,
    pub deleted_at: Option<String>,
}

/// A neighbor in the entity graph: the connecting edge plus the entity on
/// the other end.
#[derive(Debug, Clone)]
pub struct EntityNeighbor {
    pub edge: Edge,
    pub entity: Entity,
}

/// Everything known about an entity in one bundle.
#[derive(Debug, Clone)]
pub struct EntityBrief {
    pub entity: Entity,
    pub neighbors: Vec<EntityNeighbor>,
    pub recent: Vec<Observation>,
}

/// A normalized alias row for portability (export/import).
#[derive(Debug, Clone)]
pub struct EntityAlias {
    pub entity_id: i64,
    pub alias_normalized: String,
    pub source: Option<String>,
}

/// An observation↔entity mention row for portability (export/import).
#[derive(Debug, Clone)]
pub struct Mention {
    pub observation_id: i64,
    pub entity_id: i64,
}

/// Full export of the memory store for backup/migration.
#[derive(Debug, Clone)]
pub struct ExportData {
    pub version: u32,
    pub exported_at: String,
    pub observations: Vec<Observation>,
    pub sessions: Vec<Session>,
    pub entities: Vec<Entity>,
    pub entity_aliases: Vec<EntityAlias>,
    pub edges: Vec<Edge>,
    pub mentions: Vec<Mention>,
}

/// Result of an import operation.
#[derive(Debug, Clone)]
pub struct ImportResult {
    pub observations_imported: i64,
    pub observations_skipped: i64,
    pub sessions_imported: i64,
    pub sessions_skipped: i64,
    pub entities_imported: i64,
    pub entities_skipped: i64,
    pub edges_imported: i64,
    pub mentions_imported: i64,
}

/// A single indexed source file — one row per (project, root_path, relative_path).
#[derive(Debug, Clone)]
pub struct CodeFile {
    pub id: i64,
    pub project: String,
    pub root_path: String,
    pub relative_path: String,
    pub language: String,
    pub content_hash: String,
    pub indexed_at: String,
    pub deleted_at: Option<String>,
}

/// A function/method/class found in a `CodeFile`; `relative_path` and
/// `language` are copied from the owning file so a symbol alone is enough
/// to open the right file on disk.
#[derive(Debug, Clone)]
pub struct CodeSymbol {
    pub id: i64,
    pub file_id: i64,
    pub kind: String,
    pub name: String,
    pub qualified_name: String,
    pub start_line: i64,
    pub end_line: i64,
    pub indexed_at: String,
    pub deleted_at: Option<String>,
    pub relative_path: String,
    pub language: String,
}

/// A typed relation between two code nodes. `dst_id`/`dst_type` are `None`
/// when the target could not be resolved within the index; the raw
/// `dst_name` is kept so the fact is not dropped.
#[derive(Debug, Clone)]
pub struct CodeEdge {
    pub id: i64,
    pub src_id: i64,
    pub src_type: String,
    pub dst_id: Option<i64>,
    pub dst_type: Option<String>,
    pub dst_name: String,
    pub relation: String,
    pub resolution: String,
    pub external_boundary: bool,
    pub evidence_count: i64,
    pub first_seen: String,
    pub last_seen: String,
}

/// Either a file or a symbol — the two node kinds of the code graph.
#[derive(Debug, Clone)]
pub enum CodeNode {
    File(CodeFile),
    Symbol(CodeSymbol),
}

/// A neighbor in the code graph: the connecting edge plus the node on the
/// other end (`None` when the edge's target is unresolved).
#[derive(Debug, Clone)]
pub struct CodeNeighbor {
    pub edge: CodeEdge,
    pub node: Option<CodeNode>,
}

/// Outcome of one indexing run.
#[derive(Debug, Clone)]
pub struct IndexSummary {
    pub files_indexed: i64,
    pub files_unchanged: i64,
    pub files_skipped_unsupported: i64,
    pub files_failed_parse: i64,
    pub files_deleted: i64,
}

/// A one-call summary of a file: its symbols and strongest connections.
#[derive(Debug, Clone)]
pub struct CodeMap {
    pub path: String,
    pub symbols: Vec<CodeSymbol>,
    pub top_connections: Vec<CodeNeighbor>,
}

impl IndexSummary {
    /// A summary with every count at zero.
    pub fn new() -> (r: Self)
        ensures
            r.files_indexed == 0 && r.files_unchanged == 0 && r.files_skipped_unsupported == 0
                && r.files_failed_parse == 0 && r.files_deleted == 0,
    {
        IndexSummary {
            files_indexed: 0,
            files_unchanged: 0,
            files_skipped_unsupported: 0,
            files_failed_parse: 0,
            files_deleted: 0,
        }
    }
}

} // verus!
