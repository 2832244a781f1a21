use vstd::prelude::*;
use std::collections::HashMap;
use crate::errors::ErrorCode;
use crate::models::{Edge, Entity, EntityAlias, ExportData, ImportResult, Mention, Observation, Session};
use crate::schema::EXPORT_FORMAT_VERSION;
use crate::sql::{cell_int, cell_text, cell_text_or_empty, get_int, get_opt_text, param_int, param_opt_text, param_text, SqlRow, SqlValue};
use crate::text::{hash_content, spec_hash_content};
use super::entities::{decodes_entity, edge_from_row, live_entities, ENTITY_COLS};
use super::observations::{param_tags, tags_arg, tags_text};
use super::sessions::session_from_row;
use super::{first_int, StoreRead, decodes_observation, live_rows, observation_from_row, opt_view, tags_view, Database, DbResult, StoreWrite};

verus! {

broadcast use vstd::std_specs::hash::group_hash_axioms;

/// A text parameter from an optional owned string (NULL when absent).
pub fn opt_string(s: &Option<String>) -> (v: SqlValue)
    ensures
        s matches Some(x) ==> (v matches SqlValue::Text(t) && t@ == x@),
        s is None ==> v is Null,
{
    match s {
        Some(x) => SqlValue::Text(x.clone()),
        None => SqlValue::Null,
    }
}

/// How many observations of `s` are soft-deleted.
pub open spec fn deleted_observations(s: Seq<Observation>) -> nat
    decreases s.len(),
{
    if s.len() == 0 {
        0
    } else {
        deleted_observations(s.drop_last()) + if s.last().deleted_at is Some { 1nat } else { 0nat }
    }
}

/// How many entities of `s` are soft-deleted.
pub open spec fn deleted_entities(s: Seq<Entity>) -> nat
    decreases s.len(),
{
    if s.len() == 0 {
        0
    } else {
        deleted_entities(s.drop_last()) + if s.last().deleted_at is Some { 1nat } else { 0nat }
    }
}

/// How many edges of `s` are live.
pub open spec fn live_edge_count(s: Seq<Edge>) -> nat
    decreases s.len(),
{
    if s.len() == 0 {
        0
    } else {
        live_edge_count(s.drop_last()) + if s.last().deleted_at is None { 1nat } else { 0nat }
    }
}

/// The id a source id was mapped to, if any.
fn mapped(map: &HashMap<i64, i64>, k: i64) -> (r: Option<i64>)
    ensures
        map@.contains_key(k) ==> r == Some(map@[k]),
        !map@.contains_key(k) ==> r is None,
{
    match map.get(&k) {
        Some(v) => Some(*v),
        None => None,
    }
}

/// `id` is the id of a live observation of the payload.
pub open spec fn is_live_observation_id(s: Seq<Observation>, id: i64) -> bool {
    exists|j: int| 0 <= j < s.len() && #[trigger] s[j].id == id && s[j].deleted_at is None
}

/// `id` is the id of a live entity of the payload.
pub open spec fn is_live_entity_id(s: Seq<Entity>, id: i64) -> bool {
    exists|j: int| 0 <= j < s.len() && #[trigger] s[j].id == id && s[j].deleted_at is None
}

/// How many mentions of `ms` join a live observation and a live entity of
/// the payload: only those can get both ids mapped.
pub open spec fn mappable_mentions(ms: Seq<Mention>, obs: Seq<Observation>, ents: Seq<Entity>) -> nat
    decreases ms.len(),
{
    if ms.len() == 0 {
        0
    } else {
        mappable_mentions(ms.drop_last(), obs, ents) + if is_live_observation_id(obs, ms.last().observation_id)
            && is_live_entity_id(ents, ms.last().entity_id) {
            1nat
        } else {
            0nat
        }
    }
}

/// How many live edges of `es` join two live entities of the payload:
/// only those can get both ends mapped.
pub open spec fn mappable_edges(es: Seq<Edge>, ents: Seq<Entity>) -> nat
    decreases es.len(),
{
    if es.len() == 0 {
        0
    } else {
        mappable_edges(es.drop_last(), ents) + if es.last().deleted_at is None && is_live_entity_id(
            ents,
            es.last().src_entity_id,
        ) && is_live_entity_id(ents, es.last().dst_entity_id) {
            1nat
        } else {
            0nat
        }
    }
}

/// With no live entity in the payload, no edge can be mapped.
pub proof fn lemma_no_mappable_edges(es: Seq<Edge>, ents: Seq<Entity>)
    requires
        ents.len() == 0,
    ensures
        mappable_edges(es, ents) == 0,
    decreases es.len(),
{
    if es.len() > 0 {
        lemma_no_mappable_edges(es.drop_last(), ents);
    }
}

/// With no live observation in the payload, no mention can be mapped.
pub proof fn lemma_no_mappable_mentions(ms: Seq<Mention>, obs: Seq<Observation>, ents: Seq<Entity>)
    requires
        obs.len() == 0,
    ensures
        mappable_mentions(ms, obs, ents) == 0,
    decreases ms.len(),
{
    if ms.len() > 0 {
        lemma_no_mappable_mentions(ms.drop_last(), obs, ents);
    }
}

/// An import result with every count at zero.
pub open spec fn nothing_imported(res: ImportResult) -> bool {
    &&& res.observations_imported == 0 && res.observations_skipped == 0
    &&& res.sessions_imported == 0 && res.sessions_skipped == 0
    &&& res.entities_imported == 0 && res.entities_skipped == 0
    &&& res.edges_imported == 0 && res.mentions_imported == 0
}

/// The rows of an export payload that the import may count, each at most
/// `i64::MAX` long.
pub open spec fn importable(data: ExportData) -> bool {
    &&& data.observations@.len() <= i64::MAX
    &&& data.sessions@.len() <= i64::MAX
    &&& data.entities@.len() <= i64::MAX
    &&& data.edges@.len() <= i64::MAX
    &&& data.mentions@.len() <= i64::MAX
}

/// The parameters of the insert of an imported observation: its fields as
/// exported, with the hash of its content.
pub open spec fn spec_import_observation_params(p: Seq<SqlValue>, o: Observation) -> bool {
    &&& p.len() == 13
    &&& param_opt_text(p[0], opt_view(o.session_id))
    &&& param_text(p[1], o.observation_type@)
    &&& param_text(p[2], o.title@)
    &&& param_text(p[3], o.content@)
    &&& param_opt_text(p[4], opt_view(o.project))
    &&& param_text(p[5], o.scope@)
    &&& param_opt_text(p[6], opt_view(o.topic_key))
    &&& param_text(p[7], spec_hash_content(o.content@))
    &&& param_tags(p[8], tags_view(o.tags))
    &&& param_int(p[9], o.revision_count as i64)
    &&& param_int(p[10], o.duplicate_count as i64)
    &&& param_text(p[11], o.created_at@)
    &&& param_text(p[12], o.updated_at@)
}

/// Builds the parameters of the insert of an imported observation.
pub fn import_observation_params(o: &Observation) -> (r: Vec<SqlValue>)
    ensures
        spec_import_observation_params(r@, *o),
{
    let tags = match &o.tags {
        Some(t) => tags_text(Some(t.as_slice())),
        None => SqlValue::Null,
    };
    vec![
        opt_string(&o.session_id),
        SqlValue::Text(o.observation_type.clone()),
        SqlValue::Text(o.title.clone()),
        SqlValue::Text(o.content.clone()),
        opt_string(&o.project),
        SqlValue::Text(o.scope.clone()),
        opt_string(&o.topic_key),
        SqlValue::Text(hash_content(o.content.as_str())),
        tags,
        SqlValue::Integer(o.revision_count as i64),
        SqlValue::Integer(o.duplicate_count as i64),
        SqlValue::Text(o.created_at.clone()),
        SqlValue::Text(o.updated_at.clone()),
    ]
}

/// The parameters of the duplicate lookup of an imported observation: the
/// hash of its content, its project, scope and type.
pub open spec fn spec_import_lookup_params(p: Seq<SqlValue>, o: Observation) -> bool {
    &&& p.len() == 4
    &&& param_text(p[0], spec_hash_content(o.content@))
    &&& param_opt_text(p[1], opt_view(o.project))
    &&& param_text(p[2], o.scope@)
    &&& param_text(p[3], o.observation_type@)
}

/// Builds the parameters of the duplicate lookup of an imported observation.
pub fn import_lookup_params(o: &Observation) -> (r: Vec<SqlValue>)
    ensures
        spec_import_lookup_params(r@, *o),
{
    vec![
        SqlValue::Text(hash_content(o.content.as_str())),
        opt_string(&o.project),
        SqlValue::Text(o.scope.clone()),
        SqlValue::Text(o.observation_type.clone()),
    ]
}

/// The parameters of the insert of an imported entity: its fields as
/// exported.
pub open spec fn spec_import_entity_params(p: Seq<SqlValue>, e: Entity) -> bool {
    &&& p.len() == 11
    &&& param_text(p[0], e.kind@)
    &&& param_text(p[1], e.canonical_name@)
    &&& param_text(p[2], e.slug@)
    &&& param_int(p[3], e.tier as i64)
    &&& p[4] matches SqlValue::Real(x) && x@ == e.salience@
    &&& param_opt_text(p[5], opt_view(e.compiled_truth))
    &&& param_opt_text(p[6], opt_view(e.compiled_at))
    &&& param_opt_text(p[7], opt_view(e.project))
    &&& param_text(p[8], e.scope@)
    &&& param_text(p[9], e.created_at@)
    &&& param_text(p[10], e.updated_at@)
}

/// Builds the parameters of the insert of an imported entity.
pub fn import_entity_params(e: &Entity) -> (r: Vec<SqlValue>)
    ensures
        spec_import_entity_params(r@, *e),
{
    vec![
        SqlValue::Text(e.kind.clone()),
        SqlValue::Text(e.canonical_name.clone()),
        SqlValue::Text(e.slug.clone()),
        SqlValue::Integer(e.tier as i64),
        SqlValue::Real(e.salience.clone()),
        opt_string(&e.compiled_truth),
        opt_string(&e.compiled_at),
        opt_string(&e.project),
        SqlValue::Text(e.scope.clone()),
        SqlValue::Text(e.created_at.clone()),
        SqlValue::Text(e.updated_at.clone()),
    ]
}

/// `v` holds one observation per row of `rows`, in order, each the
/// decoding of its row.
pub open spec fn rows_decode_observations(v: Seq<Observation>, rows: Seq<SqlRow>) -> bool {
    &&& v.len() == rows.len()
    &&& forall|k: int| 0 <= k < v.len() ==> decodes_observation(#[trigger] v[k], rows[k]@)
}

/// `v` holds the decoding of each live row of `rows`, in order.
pub open spec fn rows_decode_live_entities(v: Seq<Entity>, rows: Seq<SqlRow>) -> bool {
    &&& v.len() == live_rows(rows, 12).len()
    &&& forall|k: int| 0 <= k < v.len() ==> decodes_entity(#[trigger] v[k], live_rows(rows, 12)[k]@)
}

/// The parameters of the insert of an imported session: its fields as
/// exported.
pub open spec fn spec_import_session_params(p: Seq<SqlValue>, s: Session) -> bool {
    &&& p.len() == 6
    &&& param_text(p[0], s.id@)
    &&& param_text(p[1], s.project@)
    &&& param_opt_text(p[2], opt_view(s.directory))
    &&& param_text(p[3], s.started_at@)
    &&& param_opt_text(p[4], opt_view(s.ended_at))
    &&& param_opt_text(p[5], opt_view(s.summary))
}

/// Builds the parameters of the insert of an imported session.
pub fn import_session_params(s: &Session) -> (r: Vec<SqlValue>)
    ensures
        spec_import_session_params(r@, *s),
{
    vec![
        SqlValue::Text(s.id.clone()),
        SqlValue::Text(s.project.clone()),
        opt_string(&s.directory),
        SqlValue::Text(s.started_at.clone()),
        opt_string(&s.ended_at),
        opt_string(&s.summary),
    ]
}

/// The parameters of the lookup of an imported entity: its slug, project
/// and scope.
pub open spec fn spec_entity_lookup_params(p: Seq<SqlValue>, e: Entity) -> bool {
    &&& p.len() == 3
    &&& param_text(p[0], e.slug@)
    &&& param_opt_text(p[1], opt_view(e.project))
    &&& param_text(p[2], e.scope@)
}

/// Builds the parameters of the lookup of an imported entity.
pub fn entity_lookup_params(e: &Entity) -> (r: Vec<SqlValue>)
    ensures
        spec_entity_lookup_params(r@, *e),
{
    vec![SqlValue::Text(e.slug.clone()), opt_string(&e.project), SqlValue::Text(e.scope.clone())]
}

/// `v` holds one alias per row of `rows`, in order: entity id, normalized
/// alias and source.
pub open spec fn rows_decode_aliases(v: Seq<EntityAlias>, rows: Seq<SqlRow>) -> bool {
    &&& v.len() == rows.len()
    &&& forall|k: int|
        0 <= k < v.len() ==> (#[trigger] v[k]).entity_id == cell_int(rows[k]@, 0, 0) && v[k].alias_normalized@
            == cell_text_or_empty(rows[k]@, 1) && opt_view(v[k].source) == cell_text(rows[k]@, 2)
}

/// `v` holds one mention per row of `rows`, in order: observation id and
/// entity id.
pub open spec fn rows_decode_mentions(v: Seq<Mention>, rows: Seq<SqlRow>) -> bool {
    &&& v.len() == rows.len()
    &&& forall|k: int|
        0 <= k < v.len() ==> (#[trigger] v[k]).observation_id == cell_int(rows[k]@, 0, 0) && v[k].entity_id
            == cell_int(rows[k]@, 1, 0)
}

/// `v` holds one session per row of `rows`, in order: id, project,
/// directory, start, end and summary.
pub open spec fn rows_decode_sessions(v: Seq<Session>, rows: Seq<SqlRow>) -> bool {
    &&& v.len() == rows.len()
    &&& forall|k: int|
        0 <= k < v.len() ==> (#[trigger] v[k]).id@ == cell_text_or_empty(rows[k]@, 0) && v[k].project@
            == cell_text_or_empty(rows[k]@, 1) && opt_view(v[k].directory) == cell_text(rows[k]@, 2)
            && v[k].started_at@ == cell_text_or_empty(rows[k]@, 3) && opt_view(v[k].ended_at) == cell_text(
            rows[k]@,
            4,
        ) && opt_view(v[k].summary) == cell_text(rows[k]@, 5)
}

/// `e` is the edge of `row`: ids, type, evidence count (1 when missing),
/// confidence (1 when missing) and times.
pub open spec fn decodes_edge(e: Edge, row: Seq<SqlValue>) -> bool {
    &&& e.id == cell_int(row, 0, 0)
    &&& e.src_entity_id == cell_int(row, 1, 0)
    &&& e.dst_entity_id == cell_int(row, 2, 0)
    &&& e.edge_type@ == cell_text_or_empty(row, 3)
    &&& e.evidence_count == cell_int(row, 4, 1)
    &&& e.confidence@ == (match crate::sql::cell_real(row, 5) {
        Some(t) => t,
        None => "1"@,
    })
    &&& e.first_seen@ == cell_text_or_empty(row, 6)
    &&& e.last_seen@ == cell_text_or_empty(row, 7)
    &&& opt_view(e.deleted_at) == cell_text(row, 8)
}

/// The edges of `rows` that are not soft-deleted, decoded, in order.
pub open spec fn rows_decode_live_edges(v: Seq<Edge>, rows: Seq<SqlRow>) -> bool
    decreases rows.len(),
{
    if rows.len() == 0 {
        v.len() == 0
    } else if cell_text(rows.last()@, 8) is None {
        v.len() > 0 && decodes_edge(v.last(), rows.last()@) && rows_decode_live_edges(v.drop_last(), rows.drop_last())
    } else {
        rows_decode_live_edges(v, rows.drop_last())
    }
}

/// Decodes every row as an observation, in order.
pub fn observations_from_rows(rows: &Vec<SqlRow>) -> (r: Vec<Observation>)
    ensures
        r@.len() == rows@.len(),
        forall|k: int| 0 <= k < r@.len() ==> decodes_observation(#[trigger] r@[k], rows@[k]@),
{
    let mut out: Vec<Observation> = Vec::new();
    let mut i: usize = 0;
    while i < rows.len()
        invariant
            i <= rows.len(),
            out@.len() == i,
            forall|k: int| 0 <= k < out@.len() ==> decodes_observation(#[trigger] out@[k], rows@[k]@),
        decreases rows.len() - i,
    {
        out.push(observation_from_row(&rows[i]));
        i += 1;
    }
    out
}

/// Inserts an imported session.
pub const IMPORT_SESSION: &'static str = "INSERT INTO sessions (id, project, directory, started_at, ended_at, summary) VALUES (?1, ?2, ?3, ?4, ?5, ?6)";

/// Inserts an imported observation.
pub const IMPORT_OBSERVATION: &'static str = "INSERT INTO observations (session_id, type, title, content, project, scope, topic_key, normalized_hash, tags, revision_count, duplicate_count, created_at, updated_at) VALUES (?1, ?2, ?3, ?4, ?5, ?6, ?7, ?8, ?9, ?10, ?11, ?12, ?13)";

/// Inserts an imported entity.
pub const IMPORT_ENTITY: &'static str = "INSERT INTO entities (kind, canonical_name, slug, tier, salience, compiled_truth, compiled_at, project, scope, created_at, updated_at) VALUES (?1, ?2, ?3, ?4, ?5, ?6, ?7, ?8, ?9, ?10, ?11)";

/// Inserts an imported alias, once.
pub const IMPORT_ALIAS: &'static str = "INSERT OR IGNORE INTO entity_aliases (entity_id, alias_normalized, source) VALUES (?1, ?2, ?3)";

/// Inserts an imported edge, once.
pub const IMPORT_EDGE: &'static str = "INSERT OR IGNORE INTO edges (src_entity_id, dst_entity_id, edge_type, evidence_count, confidence, first_seen, last_seen) VALUES (?1, ?2, ?3, ?4, ?5, ?6, ?7)";

/// Inserts an imported mention, once.
pub const IMPORT_MENTION: &'static str = "INSERT OR IGNORE INTO mentions (observation_id, entity_id) VALUES (?1, ?2)";

/// The statements of an import have distinct texts.
proof fn lemma_import_sql_lengths()
    ensures
        IMPORT_SESSION@.len() == 108,
        IMPORT_OBSERVATION@.len() == 230,
        IMPORT_ENTITY@.len() == 188,
        IMPORT_ALIAS@.len() == 94,
        IMPORT_EDGE@.len() == 156,
        IMPORT_MENTION@.len() == 74,
{
    reveal_strlit("INSERT INTO sessions (id, project, directory, started_at, ended_at, summary) VALUES (?1, ?2, ?3, ?4, ?5, ?6)");
    reveal_strlit("INSERT INTO observations (session_id, type, title, content, project, scope, topic_key, normalized_hash, tags, revision_count, duplicate_count, created_at, updated_at) VALUES (?1, ?2, ?3, ?4, ?5, ?6, ?7, ?8, ?9, ?10, ?11, ?12, ?13)");
    reveal_strlit("INSERT INTO entities (kind, canonical_name, slug, tier, salience, compiled_truth, compiled_at, project, scope, created_at, updated_at) VALUES (?1, ?2, ?3, ?4, ?5, ?6, ?7, ?8, ?9, ?10, ?11)");
    reveal_strlit("INSERT OR IGNORE INTO entity_aliases (entity_id, alias_normalized, source) VALUES (?1, ?2, ?3)");
    reveal_strlit("INSERT OR IGNORE INTO edges (src_entity_id, dst_entity_id, edge_type, evidence_count, confidence, first_seen, last_seen) VALUES (?1, ?2, ?3, ?4, ?5, ?6, ?7)");
    reveal_strlit("INSERT OR IGNORE INTO mentions (observation_id, entity_id) VALUES (?1, ?2)");
}

/// How many of `ws` run `sql`.
pub open spec fn write_count(ws: Seq<StoreWrite>, sql: Seq<char>) -> nat
    decreases ws.len(),
{
    if ws.len() == 0 {
        0
    } else {
        write_count(ws.drop_last(), sql) + if ws.last().sql == sql { 1nat } else { 0nat }
    }
}

/// How many of `ws` run `sql` and changed a row, as the engine reported.
pub open spec fn changed_count(ws: Seq<StoreWrite>, sql: Seq<char>) -> nat
    decreases ws.len(),
{
    if ws.len() == 0 {
        0
    } else {
        changed_count(ws.drop_last(), sql) + if ws.last().sql == sql && ws.last().changed > 0 { 1nat } else { 0nat }
    }
}

/// Appending a write adds it to the counts of its statement only.
proof fn lemma_counts_push(ws: Seq<StoreWrite>, w: StoreWrite)
    ensures
        forall|sql: Seq<char>| #[trigger] write_count(ws.push(w), sql) == write_count(ws, sql) + if w.sql == sql { 1nat } else { 0nat },
        forall|sql: Seq<char>| #[trigger] changed_count(ws.push(w), sql) == changed_count(ws, sql) + if w.sql == sql && w.changed > 0 { 1nat } else { 0nat },
{
    assert(ws.push(w).drop_last() =~= ws);
}

/// The parameters of the insert of an imported edge between the mapped
/// ends `src` and `dst`: its type, evidence, confidence and times as
/// exported.
pub open spec fn spec_import_edge_params(p: Seq<SqlValue>, src: i64, dst: i64, e: Edge) -> bool {
    &&& p.len() == 7
    &&& param_int(p[0], src) && param_int(p[1], dst)
    &&& param_text(p[2], e.edge_type@)
    &&& param_int(p[3], e.evidence_count)
    &&& p[4] matches SqlValue::Real(x) && x@ == e.confidence@
    &&& param_text(p[5], e.first_seen@) && param_text(p[6], e.last_seen@)
}

/// Builds the parameters of the insert of an imported edge.
pub fn import_edge_params(src: i64, dst: i64, e: &Edge) -> (r: Vec<SqlValue>)
    ensures
        spec_import_edge_params(r@, src, dst, *e),
{
    vec![
        SqlValue::Integer(src),
        SqlValue::Integer(dst),
        SqlValue::Text(e.edge_type.clone()),
        SqlValue::Integer(e.evidence_count),
        SqlValue::Real(e.confidence.clone()),
        SqlValue::Text(e.first_seen.clone()),
        SqlValue::Text(e.last_seen.clone()),
    ]
}

/// The parameters of the insert of an imported alias for the mapped entity
/// `entity_id`: its normalized text and source as exported.
pub open spec fn spec_import_alias_params(p: Seq<SqlValue>, entity_id: i64, a: EntityAlias) -> bool {
    &&& p.len() == 3
    &&& param_int(p[0], entity_id)
    &&& param_text(p[1], a.alias_normalized@)
    &&& param_opt_text(p[2], opt_view(a.source))
}

/// Builds the parameters of the insert of an imported alias.
pub fn import_alias_params(entity_id: i64, a: &EntityAlias) -> (r: Vec<SqlValue>)
    ensures
        spec_import_alias_params(r@, entity_id, *a),
{
    vec![SqlValue::Integer(entity_id), SqlValue::Text(a.alias_normalized.clone()), opt_string(&a.source)]
}

/// The parameters of the insert of an imported mention joining the mapped
/// observation and entity ids.
pub open spec fn spec_import_mention_params(p: Seq<SqlValue>, observation_id: i64, entity_id: i64) -> bool {
    &&& p.len() == 2
    &&& param_int(p[0], observation_id)
    &&& param_int(p[1], entity_id)
}

/// Builds the parameters of the insert of an imported mention.
pub fn import_mention_params(observation_id: i64, entity_id: i64) -> (r: Vec<SqlValue>)
    ensures
        spec_import_mention_params(r@, observation_id, entity_id),
{
    vec![SqlValue::Integer(observation_id), SqlValue::Integer(entity_id)]
}

/// How many aliases of `als` belong to a live entity of the payload: only
/// those can get their entity id mapped.
pub open spec fn mappable_aliases(als: Seq<EntityAlias>, ents: Seq<Entity>) -> nat
    decreases als.len(),
{
    if als.len() == 0 {
        0
    } else {
        mappable_aliases(als.drop_last(), ents) + if is_live_entity_id(ents, als.last().entity_id) {
            1nat
        } else {
            0nat
        }
    }
}

/// Finds an existing session by id.
pub const SESSION_LOOKUP: &'static str = "SELECT 1 FROM sessions WHERE id = ?1";

/// Finds a live observation with the same content hash, project, scope and
/// type as an imported one.
pub const OBSERVATION_LOOKUP: &'static str = "SELECT id FROM observations WHERE normalized_hash = ?1 AND IFNULL(project, '') = IFNULL(?2, '') AND scope = ?3 AND type = ?4 AND deleted_at IS NULL";

/// Finds a live entity with the same slug, project and scope as an
/// imported one.
pub const ENTITY_LOOKUP: &'static str = "SELECT id FROM entities WHERE slug = ?1 AND IFNULL(project, '') = IFNULL(?2, '') AND scope = ?3 AND deleted_at IS NULL";

/// How many of the lookups `rs` found a row.
pub open spec fn found_count(rs: Seq<StoreRead>) -> nat
    decreases rs.len(),
{
    if rs.len() == 0 {
        0
    } else {
        found_count(rs.drop_last()) + if first_int(rs.last().rows) is Some { 1nat } else { 0nat }
    }
}

/// `rd` looks up whether session `s` exists.
pub open spec fn session_lookup(rd: StoreRead, s: Session) -> bool {
    rd.sql == SESSION_LOOKUP@ && rd.params.len() == 1 && param_text(rd.params[0], s.id@)
}

/// `rd` looks up a live observation matching a live observation of `data`.
pub open spec fn observation_lookup(rd: StoreRead, data: ExportData) -> bool {
    rd.sql == OBSERVATION_LOOKUP@ && exists|k: int|
        0 <= k < data.observations@.len() && data.observations@[k].deleted_at is None
            && #[trigger] spec_import_lookup_params(rd.params, data.observations@[k])
}

/// `rd` looks up a live entity matching a live entity of `data`.
pub open spec fn entity_lookup(rd: StoreRead, data: ExportData) -> bool {
    rd.sql == ENTITY_LOOKUP@ && exists|k: int|
        0 <= k < data.entities@.len() && data.entities@[k].deleted_at is None
            && #[trigger] spec_entity_lookup_params(rd.params, data.entities@[k])
}

/// The lookups `rs` of an import of `data` and the skips they decide: one
/// per session, in order, and a session is skipped where it was found;
/// one per live observation, and a soft-deleted observation or one that
/// was found is skipped; one per live entity, likewise.
pub open spec fn import_lookups(rs: Seq<StoreRead>, data: ExportData, res: ImportResult) -> bool {
    let s: int = data.sessions@.len() as int;
    let o: int = data.observations@.len() - deleted_observations(data.observations@);
    let e: int = data.entities@.len() - deleted_entities(data.entities@);
    &&& rs.len() == s + o + e
    &&& forall|j: int| 0 <= j < s ==> #[trigger] session_lookup(rs[j], data.sessions@[j])
    &&& forall|j: int| s <= j < s + o ==> #[trigger] observation_lookup(rs[j], data)
    &&& forall|j: int| s + o <= j < rs.len() ==> #[trigger] entity_lookup(rs[j], data)
    &&& res.sessions_skipped == found_count(rs.take(s))
    &&& res.observations_skipped == deleted_observations(data.observations@) + found_count(rs.subrange(s, s + o))
    &&& res.entities_skipped == deleted_entities(data.entities@) + found_count(rs.skip(s + o))
}

/// Lookups that all found nothing found nothing.
proof fn lemma_nothing_found(rs: Seq<StoreRead>)
    requires
        forall|j: int| 0 <= j < rs.len() ==> first_int((#[trigger] rs[j]).rows) is None,
    ensures
        found_count(rs) == 0,
    decreases rs.len(),
{
    if rs.len() > 0 {
        assert(rs.last() == rs[rs.len() - 1]);
        lemma_nothing_found(rs.drop_last());
    }
}

/// No more observations are soft-deleted than there are.
proof fn lemma_deleted_observations_bound(s: Seq<Observation>)
    ensures
        deleted_observations(s) <= s.len(),
    decreases s.len(),
{
    if s.len() > 0 {
        lemma_deleted_observations_bound(s.drop_last());
    }
}

/// No more entities are soft-deleted than there are.
proof fn lemma_deleted_entities_bound(s: Seq<Entity>)
    ensures
        deleted_entities(s) <= s.len(),
    decreases s.len(),
{
    if s.len() > 0 {
        lemma_deleted_entities_bound(s.drop_last());
    }
}

/// Importing into a store that holds none of the payload's sessions,
/// observations or entities skips only the soft-deleted observations and
/// entities.
pub proof fn law_import_into_fresh_store_skips_only_deleted(rs: Seq<StoreRead>, data: ExportData, res: ImportResult)
    requires
        import_lookups(rs, data, res),
        forall|j: int| 0 <= j < rs.len() ==> first_int((#[trigger] rs[j]).rows) is None,
    ensures
        res.sessions_skipped == 0,
        res.observations_skipped == deleted_observations(data.observations@),
        res.entities_skipped == deleted_entities(data.entities@),
{
    let s: int = data.sessions@.len() as int;
    let o: int = data.observations@.len() - deleted_observations(data.observations@);
    lemma_deleted_observations_bound(data.observations@);
    lemma_deleted_entities_bound(data.entities@);
    assert forall|j: int| 0 <= j < rs.take(s).len() implies first_int((#[trigger] rs.take(s)[j]).rows) is None by {
        assert(rs.take(s)[j] == rs[j]);
    }
    lemma_nothing_found(rs.take(s));
    assert forall|j: int| 0 <= j < rs.subrange(s, s + o).len() implies first_int((#[trigger] rs.subrange(s, s + o)[j]).rows) is None by {
        assert(rs.subrange(s, s + o)[j] == rs[s + j]);
    }
    lemma_nothing_found(rs.subrange(s, s + o));
    assert forall|j: int| 0 <= j < rs.skip(s + o).len() implies first_int((#[trigger] rs.skip(s + o)[j]).rows) is None by {
        assert(rs.skip(s + o)[j] == rs[s + o + j]);
    }
    lemma_nothing_found(rs.skip(s + o));
}

/// `w` inserts a row of the payload as exported: a session, a live
/// observation or a live entity.
pub open spec fn import_row_write_ok(w: StoreWrite, data: ExportData) -> bool {
    &&& (w.sql == IMPORT_SESSION@ || w.sql == IMPORT_OBSERVATION@ || w.sql == IMPORT_ENTITY@)
    &&& (w.sql == IMPORT_SESSION@ ==> exists|j: int|
        0 <= j < data.sessions@.len() && #[trigger] spec_import_session_params(w.params, data.sessions@[j]))
    &&& (w.sql == IMPORT_OBSERVATION@ ==> exists|j: int|
        0 <= j < data.observations@.len() && data.observations@[j].deleted_at is None
            && #[trigger] spec_import_observation_params(w.params, data.observations@[j]))
    &&& (w.sql == IMPORT_ENTITY@ ==> exists|j: int|
        0 <= j < data.entities@.len() && data.entities@[j].deleted_at is None
            && #[trigger] spec_import_entity_params(w.params, data.entities@[j]))
}

/// `w` inserts an alias, a live edge or a mention of the payload with its
/// ids mapped through `em` (entities) and `om` (observations).
pub open spec fn import_link_write_ok(w: StoreWrite, data: ExportData, em: Map<i64, i64>, om: Map<i64, i64>) -> bool {
    &&& (w.sql == IMPORT_ALIAS@ || w.sql == IMPORT_EDGE@ || w.sql == IMPORT_MENTION@)
    &&& (w.sql == IMPORT_ALIAS@ ==> exists|j: int|
        0 <= j < data.entity_aliases@.len() && em.contains_key(data.entity_aliases@[j].entity_id)
            && #[trigger] spec_import_alias_params(
            w.params,
            em[data.entity_aliases@[j].entity_id],
            data.entity_aliases@[j],
        ))
    &&& (w.sql == IMPORT_EDGE@ ==> exists|j: int|
        0 <= j < data.edges@.len() && data.edges@[j].deleted_at is None && em.contains_key(
            data.edges@[j].src_entity_id,
        ) && em.contains_key(data.edges@[j].dst_entity_id) && #[trigger] spec_import_edge_params(
            w.params,
            em[data.edges@[j].src_entity_id],
            em[data.edges@[j].dst_entity_id],
            data.edges@[j],
        ))
    &&& (w.sql == IMPORT_MENTION@ ==> exists|j: int|
        0 <= j < data.mentions@.len() && om.contains_key(data.mentions@[j].observation_id) && em.contains_key(
            data.mentions@[j].entity_id,
        ) && #[trigger] spec_import_mention_params(
            w.params,
            om[data.mentions@[j].observation_id],
            em[data.mentions@[j].entity_id],
        ))
}

/// `em` and `om` map exactly the ids of the payload's live entities and
/// live observations.
pub open spec fn import_maps(data: ExportData, em: Map<i64, i64>, om: Map<i64, i64>) -> bool {
    &&& forall|k: i64| #[trigger] em.contains_key(k) <==> is_live_entity_id(data.entities@, k)
    &&& forall|k: i64| #[trigger] om.contains_key(k) <==> is_live_observation_id(data.observations@, k)
}

/// `ws` is an import of `data`: first `n` inserts of its rows, then the
/// inserts of its aliases, edges and mentions with ids mapped by `em` and
/// `om`, one for each that can be mapped.
pub open spec fn imported_as(ws: Seq<StoreWrite>, n: int, em: Map<i64, i64>, om: Map<i64, i64>, data: ExportData) -> bool {
    &&& 0 <= n <= ws.len()
    &&& forall|k: int| 0 <= k < n ==> #[trigger] import_row_write_ok(ws[k], data)
    &&& forall|k: int| n <= k < ws.len() ==> #[trigger] import_link_write_ok(ws[k], data, em, om)
    &&& import_maps(data, em, om)
    &&& write_count(ws, IMPORT_ALIAS@) == mappable_aliases(data.entity_aliases@, data.entities@)
    &&& write_count(ws, IMPORT_EDGE@) == mappable_edges(data.edges@, data.entities@)
    &&& write_count(ws, IMPORT_MENTION@) == mappable_mentions(data.mentions@, data.observations@, data.entities@)
}

impl Database {
    /// Exports every observation (soft-deleted ones included, in id order),
    /// every session (by start time), the live entities and edges (in id
    /// order), every alias and every mention, stamped with the export
    /// format version and the current time.
    pub fn export_all(&self) -> (r: DbResult<ExportData>)
        ensures
            r matches Ok(d) ==> d.version == EXPORT_FORMAT_VERSION,
            r matches Ok(d) ==> exists|rows: Seq<SqlRow>| #[trigger] rows_decode_observations(d.observations@, rows),
            r matches Ok(d) ==> exists|rows: Seq<SqlRow>| #[trigger] rows_decode_live_entities(d.entities@, rows),
            r matches Ok(d) ==> exists|rows: Seq<SqlRow>| #[trigger] rows_decode_aliases(d.entity_aliases@, rows),
            r matches Ok(d) ==> exists|rows: Seq<SqlRow>| #[trigger] rows_decode_mentions(d.mentions@, rows),
            r matches Ok(d) ==> exists|rows: Seq<SqlRow>| #[trigger] rows_decode_sessions(d.sessions@, rows),
            r matches Ok(d) ==> exists|rows: Seq<SqlRow>| #[trigger] rows_decode_live_edges(d.edges@, rows),
            r matches Ok(d) ==> forall|k: int| 0 <= k < d.entities@.len() ==> (#[trigger] d.entities@[k]).deleted_at is None,
            r matches Ok(d) ==> forall|k: int| 0 <= k < d.edges@.len() ==> (#[trigger] d.edges@[k]).deleted_at is None,
            r matches Err(e) ==> e.code == ErrorCode::DatabaseError,
    {
        let sql = crate::text::concat_str(
            crate::text::concat_str("SELECT ", super::OBSERVATION_COLS).as_str(),
            " FROM observations ORDER BY id",
        );
        let rows = self.query(sql.as_str(), &[])?;
        let observations = observations_from_rows(&rows);
        let ghost obs_rows = rows@;

        let rows = self.query(
            "SELECT id, project, directory, started_at, ended_at, summary FROM sessions ORDER BY started_at",
            &[],
        )?;
        let mut sessions: Vec<Session> = Vec::new();
        let ghost session_rows = rows@;
        let mut i: usize = 0;
        while i < rows.len()
            invariant
                i <= rows.len(),
                session_rows == rows@,
                sessions@.len() == i,
                forall|k: int|
                    0 <= k < i ==> (#[trigger] sessions@[k]).id@ == cell_text_or_empty(rows@[k]@, 0)
                        && sessions@[k].project@ == cell_text_or_empty(rows@[k]@, 1) && opt_view(
                        sessions@[k].directory,
                    ) == cell_text(rows@[k]@, 2) && sessions@[k].started_at@ == cell_text_or_empty(rows@[k]@, 3)
                        && opt_view(sessions@[k].ended_at) == cell_text(rows@[k]@, 4) && opt_view(
                        sessions@[k].summary,
                    ) == cell_text(rows@[k]@, 5),
            decreases rows.len() - i,
        {
            sessions.push(session_from_row(&rows[i]));
            i += 1;
        }

        let sql = crate::text::concat_str(
            crate::text::concat_str("SELECT ", ENTITY_COLS).as_str(),
            " FROM entities WHERE deleted_at IS NULL ORDER BY id",
        );
        let rows = self.query(sql.as_str(), &[])?;
        let entities = live_entities(&rows);
        let ghost ent_rows = rows@;

        let rows = self.query("SELECT entity_id, alias_normalized, source FROM entity_aliases ORDER BY id", &[])?;
        let mut entity_aliases: Vec<EntityAlias> = Vec::new();
        let ghost alias_rows = rows@;
        let mut i: usize = 0;
        while i < rows.len()
            invariant
                i <= rows.len(),
                alias_rows == rows@,
                entity_aliases@.len() == i,
                forall|k: int|
                    0 <= k < i ==> (#[trigger] entity_aliases@[k]).entity_id == cell_int(rows@[k]@, 0, 0)
                        && entity_aliases@[k].alias_normalized@ == cell_text_or_empty(rows@[k]@, 1) && opt_view(
                        entity_aliases@[k].source,
                    ) == cell_text(rows@[k]@, 2),
            decreases rows.len() - i,
        {
            let row: &SqlRow = &rows[i];
            entity_aliases.push(
                EntityAlias {
                    entity_id: get_int(row, 0, 0),
                    alias_normalized: crate::sql::get_text(row, 1),
                    source: get_opt_text(row, 2),
                },
            );
            i += 1;
        }

        let rows = self.query(
            "SELECT id, src_entity_id, dst_entity_id, edge_type, evidence_count,
                    confidence, first_seen, last_seen, deleted_at
             FROM edges WHERE deleted_at IS NULL ORDER BY id",
            &[],
        )?;
        let mut edges: Vec<Edge> = Vec::new();
        let ghost edge_rows = rows@;
        let mut i: usize = 0;
        while i < rows.len()
            invariant
                i <= rows.len(),
                edge_rows == rows@,
                rows_decode_live_edges(edges@, rows@.take(i as int)),
                forall|k: int| 0 <= k < edges@.len() ==> (#[trigger] edges@[k]).deleted_at is None,
            decreases rows.len() - i,
        {
            proof {
                assert(rows@.take(i as int + 1).drop_last() =~= rows@.take(i as int));
            }
            let ghost before = edges@;
            let e = edge_from_row(&rows[i]);
            proof {
                assert(rows@.take(i as int + 1).last() == rows@[i as int]);
                assert(decodes_edge(e, rows@[i as int]@));
            }
            if e.deleted_at.is_none() {
                edges.push(e);
                proof {
                    assert(edges@.drop_last() =~= before);
                }
            }
            i += 1;
        }

        let rows = self.query("SELECT observation_id, entity_id FROM mentions ORDER BY id", &[])?;
        let mut mentions: Vec<Mention> = Vec::new();
        let ghost mention_rows = rows@;
        let mut i: usize = 0;
        while i < rows.len()
            invariant
                i <= rows.len(),
                mention_rows == rows@,
                mentions@.len() == i,
                forall|k: int|
                    0 <= k < i ==> (#[trigger] mentions@[k]).observation_id == cell_int(rows@[k]@, 0, 0)
                        && mentions@[k].entity_id == cell_int(rows@[k]@, 1, 0),
            decreases rows.len() - i,
        {
            let row: &SqlRow = &rows[i];
            mentions.push(Mention { observation_id: get_int(row, 0, 0), entity_id: get_int(row, 1, 0) });
            i += 1;
        }

        let exported_at = self.now_utc()?;
        proof {
            assert(rows_decode_observations(observations@, obs_rows));
            assert(rows_decode_live_entities(entities@, ent_rows));
            assert(rows_decode_aliases(entity_aliases@, alias_rows));
            assert(rows_decode_mentions(mentions@, mention_rows));
            assert(rows_decode_sessions(sessions@, session_rows));
            assert(edge_rows.take(edge_rows.len() as int) =~= edge_rows);
        }
        let d = ExportData {
            version: EXPORT_FORMAT_VERSION,
            exported_at,
            observations,
            sessions,
            entities,
            entity_aliases,
            edges,
            mentions,
        };
        proof {
            assert(rows_decode_observations(d.observations@, obs_rows));
            assert(rows_decode_live_entities(d.entities@, ent_rows));
            assert(rows_decode_aliases(d.entity_aliases@, alias_rows));
            assert(rows_decode_mentions(d.mentions@, mention_rows));
            assert(rows_decode_sessions(d.sessions@, session_rows));
            assert(rows_decode_live_edges(d.edges@, edge_rows));
        }
        Ok(d)
    }

    /// Imports an export payload. Sessions whose id exists are skipped.
    /// Soft-deleted observations and entities are skipped; a live
    /// observation whose content hash, project, scope and type match a live
    /// one here, and a live entity whose slug, project and scope match a
    /// live one here, are skipped too and their old id is mapped to the one
    /// found. Aliases, live edges and mentions are written with their ids
    /// mapped, and dropped where an id has no mapping; an edge or mention
    /// counts as imported only when it was not already there.
    #[verifier::spinoff_prover]
    #[verifier::rlimit(100)]
    pub fn import_data(&mut self, data: &ExportData) -> (r: DbResult<ImportResult>)
        requires
            importable(*data),
        ensures
            r matches Ok(res) ==> res.sessions_imported >= 0 && res.sessions_skipped >= 0
                && res.sessions_imported + res.sessions_skipped == data.sessions@.len(),
            r matches Ok(res) ==> res.observations_imported >= 0
                && res.observations_skipped >= deleted_observations(data.observations@)
                && res.observations_imported + res.observations_skipped == data.observations@.len(),
            r matches Ok(res) ==> res.entities_imported >= 0
                && res.entities_skipped >= deleted_entities(data.entities@)
                && res.entities_imported + res.entities_skipped == data.entities@.len(),
            r matches Ok(res) ==> 0 <= res.edges_imported <= live_edge_count(data.edges@),
            r matches Ok(res) ==> 0 <= res.mentions_imported <= data.mentions@.len(),
            r matches Ok(res) ==> res.edges_imported <= mappable_edges(data.edges@, data.entities@),
            r matches Ok(res) ==> res.mentions_imported <= mappable_mentions(
                data.mentions@,
                data.observations@,
                data.entities@,
            ),
            data.sessions@.len() == 0 && data.observations@.len() == 0 && data.entities@.len() == 0 ==> (r matches Ok(
                res,
            ) && nothing_imported(res)),
            r matches Err(e) ==> e.code == ErrorCode::DatabaseError,
            r matches Ok(res) ==> {
                let ws = final(self).log().skip(old(self).log().len() as int);
                &&& final(self).log() == old(self).log() + ws
                &&& exists|n: int, em: Map<i64, i64>, om: Map<i64, i64>| #[trigger] imported_as(ws, n, em, om, *data)
                &&& res.sessions_imported == write_count(ws, IMPORT_SESSION@)
                &&& res.observations_imported == write_count(ws, IMPORT_OBSERVATION@)
                &&& res.entities_imported == write_count(ws, IMPORT_ENTITY@)
                &&& res.edges_imported == changed_count(ws, IMPORT_EDGE@)
                &&& res.mentions_imported == changed_count(ws, IMPORT_MENTION@)
            },
            r matches Ok(res) ==> final(self).lookups().len() >= old(self).lookups().len() && final(self).lookups().take(
                old(self).lookups().len() as int,
            ) == old(self).lookups() && import_lookups(
                final(self).lookups().skip(old(self).lookups().len() as int),
                *data,
                res,
            ),
    {
        let ghost start_reads = self.lookups();
        let ghost mut rs: Seq<StoreRead> = Seq::empty();
        let ghost start = self.log();
        let ghost mut ws: Seq<StoreWrite> = Seq::empty();
        let mut sess_imported: i64 = 0;
        let mut sess_skipped: i64 = 0;
        let mut obs_imported: i64 = 0;
        let mut ent_imported: i64 = 0;
        let mut edges_imported: i64 = 0;
        let mut mentions_imported: i64 = 0;
        let mut i: usize = 0;
        while i < data.sessions.len()
            invariant
                self.log() == start + ws,
                start == old(self).log(),
                forall|k: int| 0 <= k < ws.len() ==> #[trigger] import_row_write_ok(ws[k], *data),
                write_count(ws, IMPORT_ALIAS@) == 0,
                write_count(ws, IMPORT_EDGE@) == 0,
                write_count(ws, IMPORT_MENTION@) == 0,
                sess_imported == write_count(ws, IMPORT_SESSION@),
                obs_imported == write_count(ws, IMPORT_OBSERVATION@),
                ent_imported == write_count(ws, IMPORT_ENTITY@),
                edges_imported == changed_count(ws, IMPORT_EDGE@),
                mentions_imported == changed_count(ws, IMPORT_MENTION@),
                i <= data.sessions@.len() <= i64::MAX,
                sess_imported >= 0,
                sess_skipped >= 0,
                sess_imported + sess_skipped == i,
                self.lookups() == start_reads + rs,
                start_reads == old(self).lookups(),
                rs.len() == i,
                forall|j: int| 0 <= j < i ==> #[trigger] session_lookup(rs[j], data.sessions@[j]),
                sess_skipped == found_count(rs),
            decreases data.sessions.len() - i,
        {
            let s = &data.sessions[i];
            let lookup = vec![SqlValue::Text(s.id.clone())];
            let found = self.lookup_int(SESSION_LOOKUP, lookup.as_slice())?;
            proof {
                let rd = self.lookups().last();
                let prev = rs;
                rs = rs.push(rd);
                assert(self.lookups() =~= start_reads + rs);
                assert(rs.drop_last() =~= prev);
                assert(first_int(rd.rows) == found);
                assert(session_lookup(rd, data.sessions@[i as int]));
                assert forall|j: int| 0 <= j < i + 1 implies #[trigger] session_lookup(rs[j], data.sessions@[j]) by {
                    if j < i {
                        assert(rs[j] == prev[j]);
                    }
                }
            }
            if found.is_some() {
                sess_skipped += 1;
            } else {
                let params = import_session_params(s);
                self.exec(IMPORT_SESSION, params.as_slice())?;
                proof {
                    let w = self.log().last();
                    lemma_import_sql_lengths();
                    lemma_counts_push(ws, w);
                    assert(spec_import_session_params(w.params, data.sessions@[i as int]));
                    assert(import_row_write_ok(w, *data));
                    ws = ws.push(w);
                    assert(self.log() =~= start + ws);
                }
                sess_imported += 1;
            }
            i += 1;
        }

        let ghost rs_s = rs;
        proof {
            assert(rs.take(data.sessions@.len() as int) =~= rs_s);
            assert(rs.skip(data.sessions@.len() as int) =~= Seq::<StoreRead>::empty());
        }
        let mut obs_map: HashMap<i64, i64> = HashMap::new();
        let mut obs_skipped: i64 = 0;
        let mut i: usize = 0;
        while i < data.observations.len()
            invariant
                self.log() == start + ws,
                start == old(self).log(),
                forall|k: int| 0 <= k < ws.len() ==> #[trigger] import_row_write_ok(ws[k], *data),
                write_count(ws, IMPORT_ALIAS@) == 0,
                write_count(ws, IMPORT_EDGE@) == 0,
                write_count(ws, IMPORT_MENTION@) == 0,
                forall|j: int| 0 <= j < i && data.observations@[j].deleted_at is None ==> obs_map@.contains_key(#[trigger] data.observations@[j].id),
                self.lookups() == start_reads + rs,
                start_reads == old(self).lookups(),
                rs.take(data.sessions@.len() as int) == rs_s,
                rs.len() == data.sessions@.len() + i - deleted_observations(data.observations@.take(i as int)),
                forall|j: int| data.sessions@.len() <= j < rs.len() ==> #[trigger] observation_lookup(rs[j], *data),
                obs_skipped == deleted_observations(data.observations@.take(i as int)) + found_count(
                    rs.skip(data.sessions@.len() as int),
                ),
                sess_imported == write_count(ws, IMPORT_SESSION@),
                obs_imported == write_count(ws, IMPORT_OBSERVATION@),
                ent_imported == write_count(ws, IMPORT_ENTITY@),
                edges_imported == changed_count(ws, IMPORT_EDGE@),
                mentions_imported == changed_count(ws, IMPORT_MENTION@),
                i <= data.observations@.len() <= i64::MAX,
                obs_imported >= 0,
                obs_skipped >= deleted_observations(data.observations@.take(i as int)),
                obs_imported + obs_skipped == i,
                forall|k: i64| #[trigger] obs_map@.contains_key(k) ==> is_live_observation_id(data.observations@, k),
            decreases data.observations.len() - i,
        {
            proof {
                assert(data.observations@.take(i as int + 1).drop_last() =~= data.observations@.take(i as int));
            }
            let o = &data.observations[i];
            if o.deleted_at.is_some() {
                obs_skipped += 1;
            } else {
                let lookup = import_lookup_params(o);
                let existing = self.lookup_int(OBSERVATION_LOOKUP, lookup.as_slice())?;
                proof {
                    let rd = self.lookups().last();
                    let prev = rs;
                    rs = rs.push(rd);
                    let sl = data.sessions@.len() as int;
                    assert(self.lookups() =~= start_reads + rs);
                    assert(rs.take(sl) =~= prev.take(sl));
                    assert(rs.skip(sl).drop_last() =~= prev.skip(sl));
                    assert(rs.skip(sl).last() == rd);
                    assert(first_int(rd.rows) == existing);
                    assert(data.observations@[i as int] == *o);
                    assert(rd.params == lookup@);
                    assert(spec_import_lookup_params(rd.params, data.observations@[i as int]));
                    assert(observation_lookup(rd, *data));
                    assert forall|j: int| sl <= j < rs.len() implies #[trigger] observation_lookup(rs[j], *data) by {
                        if j < prev.len() {
                            assert(rs[j] == prev[j]);
                        }
                    }
                }
                match existing {
                    Some(id) => {
                        obs_skipped += 1;
                        proof {
                            assert(data.observations@[i as int].id == o.id);
                        }
                        obs_map.insert(o.id, id);
                    },
                    None => {
                        let params = import_observation_params(o);
                        self.exec(IMPORT_OBSERVATION, params.as_slice())?;
                        proof {
                            let w = self.log().last();
                            lemma_import_sql_lengths();
                            lemma_counts_push(ws, w);
                            assert(spec_import_observation_params(w.params, data.observations@[i as int]));
                            assert(import_row_write_ok(w, *data));
                            ws = ws.push(w);
                            assert(self.log() =~= start + ws);
                        }
                        let new_id = self.last_insert_rowid();
                        proof {
                            assert(data.observations@[i as int].id == o.id);
                        }
                        obs_map.insert(o.id, new_id);
                        obs_imported += 1;
                    },
                }
            }
            i += 1;
        }
        proof {
            assert(data.observations@.take(data.observations@.len() as int) =~= data.observations@);
            assert forall|k: i64| #[trigger] obs_map@.contains_key(k) <==> is_live_observation_id(data.observations@, k) by {
                if is_live_observation_id(data.observations@, k) {
                    let j = choose|j: int|
                        0 <= j < data.observations@.len() && #[trigger] data.observations@[j].id == k
                            && data.observations@[j].deleted_at is None;
                    assert(obs_map@.contains_key(data.observations@[j].id));
                }
            }
        }

        let ghost rs_so = rs;
        proof {
            assert(rs.take(rs_so.len() as int) =~= rs_so);
            assert(rs.skip(rs_so.len() as int) =~= Seq::<StoreRead>::empty());
        }
        let mut ent_map: HashMap<i64, i64> = HashMap::new();
        let mut ent_skipped: i64 = 0;
        let mut i: usize = 0;
        while i < data.entities.len()
            invariant
                self.log() == start + ws,
                start == old(self).log(),
                forall|k: int| 0 <= k < ws.len() ==> #[trigger] import_row_write_ok(ws[k], *data),
                write_count(ws, IMPORT_ALIAS@) == 0,
                write_count(ws, IMPORT_EDGE@) == 0,
                write_count(ws, IMPORT_MENTION@) == 0,
                forall|j: int| 0 <= j < i && data.entities@[j].deleted_at is None ==> ent_map@.contains_key(#[trigger] data.entities@[j].id),
                self.lookups() == start_reads + rs,
                start_reads == old(self).lookups(),
                rs.take(rs_so.len() as int) == rs_so,
                rs.len() == rs_so.len() + i - deleted_entities(data.entities@.take(i as int)),
                forall|j: int| rs_so.len() <= j < rs.len() ==> #[trigger] entity_lookup(rs[j], *data),
                ent_skipped == deleted_entities(data.entities@.take(i as int)) + found_count(rs.skip(rs_so.len() as int)),
                forall|k: i64| #[trigger] obs_map@.contains_key(k) <==> is_live_observation_id(data.observations@, k),
                sess_imported == write_count(ws, IMPORT_SESSION@),
                obs_imported == write_count(ws, IMPORT_OBSERVATION@),
                ent_imported == write_count(ws, IMPORT_ENTITY@),
                edges_imported == changed_count(ws, IMPORT_EDGE@),
                mentions_imported == changed_count(ws, IMPORT_MENTION@),
                i <= data.entities@.len() <= i64::MAX,
                ent_imported >= 0,
                ent_skipped >= deleted_entities(data.entities@.take(i as int)),
                ent_imported + ent_skipped == i,
                forall|k: i64| #[trigger] ent_map@.contains_key(k) ==> is_live_entity_id(data.entities@, k),
                forall|k: i64| #[trigger] obs_map@.contains_key(k) ==> is_live_observation_id(data.observations@, k),
            decreases data.entities.len() - i,
        {
            proof {
                assert(data.entities@.take(i as int + 1).drop_last() =~= data.entities@.take(i as int));
            }
            let e = &data.entities[i];
            if e.deleted_at.is_some() {
                ent_skipped += 1;
            } else {
                let lookup = entity_lookup_params(e);
                let existing = self.lookup_int(ENTITY_LOOKUP, lookup.as_slice())?;
                proof {
                    let rd = self.lookups().last();
                    let prev = rs;
                    rs = rs.push(rd);
                    let sl = rs_so.len() as int;
                    assert(self.lookups() =~= start_reads + rs);
                    assert(rs.take(sl) =~= prev.take(sl));
                    assert(rs.skip(sl).drop_last() =~= prev.skip(sl));
                    assert(rs.skip(sl).last() == rd);
                    assert(first_int(rd.rows) == existing);
                    assert(data.entities@[i as int] == *e);
                    assert(rd.params == lookup@);
                    assert(spec_entity_lookup_params(rd.params, data.entities@[i as int]));
                    assert(entity_lookup(rd, *data));
                    assert forall|j: int| sl <= j < rs.len() implies #[trigger] entity_lookup(rs[j], *data) by {
                        if j < prev.len() {
                            assert(rs[j] == prev[j]);
                        }
                    }
                }
                match existing {
                    Some(id) => {
                        ent_skipped += 1;
                        proof {
                            assert(data.entities@[i as int].id == e.id);
                        }
                        ent_map.insert(e.id, id);
                    },
                    None => {
                        let params = import_entity_params(e);
                        self.exec(IMPORT_ENTITY, params.as_slice())?;
                        proof {
                            let w = self.log().last();
                            lemma_import_sql_lengths();
                            lemma_counts_push(ws, w);
                            assert(spec_import_entity_params(w.params, data.entities@[i as int]));
                            assert(import_row_write_ok(w, *data));
                            ws = ws.push(w);
                            assert(self.log() =~= start + ws);
                        }
                        let new_id = self.last_insert_rowid();
                        proof {
                            assert(data.entities@[i as int].id == e.id);
                        }
                        ent_map.insert(e.id, new_id);
                        ent_imported += 1;
                    },
                }
            }
            i += 1;
        }
        proof {
            assert(data.entities@.take(data.entities@.len() as int) =~= data.entities@);
            assert forall|k: i64| #[trigger] ent_map@.contains_key(k) <==> is_live_entity_id(data.entities@, k) by {
                if is_live_entity_id(data.entities@, k) {
                    let j = choose|j: int|
                        0 <= j < data.entities@.len() && #[trigger] data.entities@[j].id == k
                            && data.entities@[j].deleted_at is None;
                    assert(ent_map@.contains_key(data.entities@[j].id));
                }
            }
            assert(import_maps(*data, ent_map@, obs_map@));
        }
        let ghost n: int = ws.len() as int;

        let mut i: usize = 0;
        while i < data.entity_aliases.len()
            invariant
                self.log() == start + ws,
                start == old(self).log(),
                0 <= n <= ws.len(),
                self.lookups() == start_reads + rs,
                forall|k: int| 0 <= k < n ==> #[trigger] import_row_write_ok(ws[k], *data),
                forall|k: int| n <= k < ws.len() ==> #[trigger] import_link_write_ok(ws[k], *data, ent_map@, obs_map@),
                import_maps(*data, ent_map@, obs_map@),
                write_count(ws, IMPORT_ALIAS@) == mappable_aliases(data.entity_aliases@.take(i as int), data.entities@),
                write_count(ws, IMPORT_EDGE@) == 0,
                write_count(ws, IMPORT_MENTION@) == 0,
                sess_imported == write_count(ws, IMPORT_SESSION@),
                obs_imported == write_count(ws, IMPORT_OBSERVATION@),
                ent_imported == write_count(ws, IMPORT_ENTITY@),
                edges_imported == changed_count(ws, IMPORT_EDGE@),
                mentions_imported == changed_count(ws, IMPORT_MENTION@),
                i <= data.entity_aliases@.len(),
                forall|k: i64| #[trigger] ent_map@.contains_key(k) ==> is_live_entity_id(data.entities@, k),
                forall|k: i64| #[trigger] obs_map@.contains_key(k) ==> is_live_observation_id(data.observations@, k),
            decreases data.entity_aliases.len() - i,
        {
            proof {
                assert(data.entity_aliases@.take(i as int + 1).drop_last() =~= data.entity_aliases@.take(i as int));
                lemma_import_sql_lengths();
            }
            let a = &data.entity_aliases[i];
            proof {
                assert(ent_map@.contains_key(a.entity_id) == is_live_entity_id(data.entities@, a.entity_id));
            }
            if let Some(eid) = mapped(&ent_map, a.entity_id) {
                let params = import_alias_params(eid, a);
                self.exec(IMPORT_ALIAS, params.as_slice())?;
                proof {
                    let w = self.log().last();
                    lemma_counts_push(ws, w);
                    let j = i as int;
                    assert(spec_import_alias_params(w.params, ent_map@[data.entity_aliases@[j].entity_id], data.entity_aliases@[j]));
                    assert(import_link_write_ok(w, *data, ent_map@, obs_map@));
                    let prev = ws;
                    ws = ws.push(w);
                    assert forall|k: int| n <= k < ws.len() implies #[trigger] import_link_write_ok(ws[k], *data, ent_map@, obs_map@) by {
                        if k < prev.len() {
                            assert(ws[k] == prev[k]);
                        }
                    }
                    assert(self.log() =~= start + ws);
                }
            }
            i += 1;
        }
        proof {
            assert(data.entity_aliases@.take(data.entity_aliases@.len() as int) =~= data.entity_aliases@);
        }

        let mut i: usize = 0;
        while i < data.edges.len()
            invariant
                self.log() == start + ws,
                start == old(self).log(),
                0 <= n <= ws.len(),
                self.lookups() == start_reads + rs,
                forall|k: int| 0 <= k < n ==> #[trigger] import_row_write_ok(ws[k], *data),
                forall|k: int| n <= k < ws.len() ==> #[trigger] import_link_write_ok(ws[k], *data, ent_map@, obs_map@),
                import_maps(*data, ent_map@, obs_map@),
                write_count(ws, IMPORT_ALIAS@) == mappable_aliases(data.entity_aliases@, data.entities@),
                write_count(ws, IMPORT_EDGE@) == mappable_edges(data.edges@.take(i as int), data.entities@),
                write_count(ws, IMPORT_MENTION@) == 0,
                sess_imported == write_count(ws, IMPORT_SESSION@),
                obs_imported == write_count(ws, IMPORT_OBSERVATION@),
                ent_imported == write_count(ws, IMPORT_ENTITY@),
                edges_imported == changed_count(ws, IMPORT_EDGE@),
                mentions_imported == changed_count(ws, IMPORT_MENTION@),
                i <= data.edges@.len() <= i64::MAX,
                0 <= edges_imported <= live_edge_count(data.edges@.take(i as int)),
                live_edge_count(data.edges@.take(i as int)) <= i,
                edges_imported <= mappable_edges(data.edges@.take(i as int), data.entities@),
                forall|k: i64| #[trigger] ent_map@.contains_key(k) ==> is_live_entity_id(data.entities@, k),
                forall|k: i64| #[trigger] obs_map@.contains_key(k) ==> is_live_observation_id(data.observations@, k),
            decreases data.edges.len() - i,
        {
            proof {
                assert(data.edges@.take(i as int + 1).drop_last() =~= data.edges@.take(i as int));
            }
            let ed = &data.edges[i];
            proof {
                lemma_import_sql_lengths();
                assert(ent_map@.contains_key(ed.src_entity_id) == is_live_entity_id(data.entities@, ed.src_entity_id));
                assert(ent_map@.contains_key(ed.dst_entity_id) == is_live_entity_id(data.entities@, ed.dst_entity_id));
            }
            if ed.deleted_at.is_none() {
                let s = mapped(&ent_map, ed.src_entity_id);
                let d = mapped(&ent_map, ed.dst_entity_id);
                if let (Some(s), Some(d)) = (s, d) {
                    let params = import_edge_params(s, d, ed);
                    let changed = self.exec(IMPORT_EDGE, params.as_slice())?;
                    proof {
                        let w = self.log().last();
                        lemma_import_sql_lengths();
                        lemma_counts_push(ws, w);
                        let j = i as int;
                        assert(spec_import_edge_params(
                            w.params,
                            ent_map@[data.edges@[j].src_entity_id],
                            ent_map@[data.edges@[j].dst_entity_id],
                            data.edges@[j],
                        ));
                        assert(import_link_write_ok(w, *data, ent_map@, obs_map@));
                        let prev = ws;
                        ws = ws.push(w);
                        assert forall|k: int| n <= k < ws.len() implies #[trigger] import_link_write_ok(ws[k], *data, ent_map@, obs_map@) by {
                            if k < prev.len() {
                                assert(ws[k] == prev[k]);
                            }
                        }
                        assert(self.log() =~= start + ws);
                    }
                    if changed > 0 {
                        edges_imported += 1;
                    }
                }
            }
            i += 1;
        }
        proof {
            assert(data.edges@.take(data.edges@.len() as int) =~= data.edges@);
        }

        let mut i: usize = 0;
        while i < data.mentions.len()
            invariant
                self.log() == start + ws,
                start == old(self).log(),
                0 <= n <= ws.len(),
                self.lookups() == start_reads + rs,
                forall|k: int| 0 <= k < n ==> #[trigger] import_row_write_ok(ws[k], *data),
                forall|k: int| n <= k < ws.len() ==> #[trigger] import_link_write_ok(ws[k], *data, ent_map@, obs_map@),
                import_maps(*data, ent_map@, obs_map@),
                write_count(ws, IMPORT_ALIAS@) == mappable_aliases(data.entity_aliases@, data.entities@),
                write_count(ws, IMPORT_EDGE@) == mappable_edges(data.edges@, data.entities@),
                write_count(ws, IMPORT_MENTION@) == mappable_mentions(data.mentions@.take(i as int), data.observations@, data.entities@),
                sess_imported == write_count(ws, IMPORT_SESSION@),
                obs_imported == write_count(ws, IMPORT_OBSERVATION@),
                ent_imported == write_count(ws, IMPORT_ENTITY@),
                edges_imported == changed_count(ws, IMPORT_EDGE@),
                mentions_imported == changed_count(ws, IMPORT_MENTION@),
                i <= data.mentions@.len() <= i64::MAX,
                0 <= mentions_imported <= i,
                mentions_imported <= mappable_mentions(data.mentions@.take(i as int), data.observations@, data.entities@),
                forall|k: i64| #[trigger] ent_map@.contains_key(k) ==> is_live_entity_id(data.entities@, k),
                forall|k: i64| #[trigger] obs_map@.contains_key(k) ==> is_live_observation_id(data.observations@, k),
            decreases data.mentions.len() - i,
        {
            proof {
                assert(data.mentions@.take(i as int + 1).drop_last() =~= data.mentions@.take(i as int));
            }
            let m = &data.mentions[i];
            proof {
                lemma_import_sql_lengths();
                assert(ent_map@.contains_key(m.entity_id) == is_live_entity_id(data.entities@, m.entity_id));
                assert(obs_map@.contains_key(m.observation_id) == is_live_observation_id(data.observations@, m.observation_id));
            }
            let oid = mapped(&obs_map, m.observation_id);
            let eid = mapped(&ent_map, m.entity_id);
            if let (Some(oid), Some(eid)) = (oid, eid) {
                let params = import_mention_params(oid, eid);
                let changed = self.exec(IMPORT_MENTION, params.as_slice())?;
                proof {
                    let w = self.log().last();
                    lemma_counts_push(ws, w);
                    let j = i as int;
                    assert(spec_import_mention_params(
                        w.params,
                        obs_map@[data.mentions@[j].observation_id],
                        ent_map@[data.mentions@[j].entity_id],
                    ));
                    assert(import_link_write_ok(w, *data, ent_map@, obs_map@));
                    let prev = ws;
                    ws = ws.push(w);
                    assert forall|k: int| n <= k < ws.len() implies #[trigger] import_link_write_ok(ws[k], *data, ent_map@, obs_map@) by {
                        if k < prev.len() {
                            assert(ws[k] == prev[k]);
                        }
                    }
                    assert(self.log() =~= start + ws);
                }
                if changed > 0 {
                    mentions_imported += 1;
                }
            }
            i += 1;
        }
        proof {
            assert(data.mentions@.take(data.mentions@.len() as int) =~= data.mentions@);
            if data.entities@.len() == 0 {
                lemma_no_mappable_edges(data.edges@, data.entities@);
            }
            if data.observations@.len() == 0 {
                lemma_no_mappable_mentions(data.mentions@, data.observations@, data.entities@);
            }
        }

        proof {
            assert(self.log().skip(start.len() as int) =~= ws);
            assert(imported_as(ws, n, ent_map@, obs_map@, *data));
            let sl = data.sessions@.len() as int;
            assert(self.lookups().skip(start_reads.len() as int) =~= rs);
            assert(self.lookups().take(start_reads.len() as int) =~= start_reads);
            assert(rs.take(sl) =~= rs_s);
            assert(rs.subrange(sl, rs_so.len() as int) =~= rs_so.skip(sl));
            let ol: int = data.observations@.len() - deleted_observations(data.observations@);
            let el: int = data.entities@.len() - deleted_entities(data.entities@);
            assert(rs_so.len() == sl + ol);
            assert(rs.len() == sl + ol + el);
            assert forall|j: int| 0 <= j < sl implies #[trigger] session_lookup(rs[j], data.sessions@[j]) by {
                assert(rs[j] == rs.take(sl)[j]);
            }
            assert forall|j: int| sl <= j < sl + ol implies #[trigger] observation_lookup(rs[j], *data) by {
                assert(rs[j] == rs.take(rs_so.len() as int)[j]);
            }
            assert(sess_skipped == found_count(rs.take(sl)));
            assert(obs_skipped == deleted_observations(data.observations@) + found_count(rs.subrange(sl, sl + ol)));
            assert(ent_skipped == deleted_entities(data.entities@) + found_count(rs.skip(sl + ol)));
        }
        Ok(
            ImportResult {
                observations_imported: obs_imported,
                observations_skipped: obs_skipped,
                sessions_imported: sess_imported,
                sessions_skipped: sess_skipped,
                entities_imported: ent_imported,
                entities_skipped: ent_skipped,
                edges_imported,
                mentions_imported,
            },
        )
    }
}

} // verus!
