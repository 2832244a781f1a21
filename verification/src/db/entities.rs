use vstd::prelude::*;
use vstd::string::*;
use crate::errors::{ErrorCode, IgrisError};
use crate::models::{Edge, Entity, EntityBrief, EntityNeighbor, Observation};
use crate::sql::{opt_str_view, param_opt_text, param_int, param_text, cell_int, cell_real, cell_text, cell_text_or_empty, get_int, get_opt_text, get_real, get_text, opt_text, text, SqlRow, SqlValue};
use crate::text::{concat_str, decimal, entity_slug, normalize_alias, redact, spec_entity_slug, spec_normalize_alias, str_eq, strip_private_tags};
use crate::validation::{entity_is_valid, save_is_valid, validate_entity, validate_entity_kind, validate_entity_update_has_fields};
use super::codegraph::{contains_i64, decimal_i64, spec_decimal_i64};
use super::{write_of, StoreWrite, stamp_params, stamped_once, get_i32, lemma_filter_take_step, live_pred, live_rows, Database, DbResult, NO_ROWS_MESSAGE};
use super::observations::{save_write, tags_arg};
use crate::ranking::{best_positions, key_before, key_view, keys_view, picks_best, SortKey};
use crate::json::strings_view;

verus! {

/// Soft-deletes a live entity: sets its `deleted_at` to the stamp.
pub const SOFT_DELETE_ENTITY: &'static str = "UPDATE entities SET deleted_at = ?1 WHERE id = ?2 AND deleted_at IS NULL";

/// Soft-deletes the live edges of a type between two entities, either way.
pub const UNLINK_EDGES: &'static str = "UPDATE edges SET deleted_at = ?1
             WHERE edge_type = ?2 AND deleted_at IS NULL
               AND ((src_entity_id = ?3 AND dst_entity_id = ?4)
                 OR (src_entity_id = ?4 AND dst_entity_id = ?3))";

/// Registers a normalized alias for an entity, once.
pub const INSERT_ALIAS: &'static str = "INSERT OR IGNORE INTO entity_aliases (entity_id, alias_normalized, source) VALUES (?1, ?2, ?3)";

/// Copies the aliases of the source entity (?2) to the target (?1).
pub const COPY_ALIASES: &'static str = "INSERT OR IGNORE INTO entity_aliases (entity_id, alias_normalized, source)
             SELECT ?1, alias_normalized, 'merged' FROM entity_aliases WHERE entity_id = ?2";

/// Copies the mentions of the source entity (?2) to the target (?1).
pub const COPY_MENTIONS: &'static str = "INSERT OR IGNORE INTO mentions (observation_id, entity_id)
             SELECT observation_id, ?1 FROM mentions WHERE entity_id = ?2";

/// Drops the mentions of an entity.
pub const DROP_MENTIONS: &'static str = "DELETE FROM mentions WHERE entity_id = ?1";

/// Inserts an edge moved by a merge.
pub const REINSERT_EDGE: &'static str = "INSERT OR IGNORE INTO edges
                         (src_entity_id, dst_entity_id, edge_type, evidence_count, confidence,
                          first_seen, last_seen)
                     VALUES (?1, ?2, ?3, ?4, ?5, ?6, ?7)";

/// Reads every edge: ends, type, evidence, confidence, times and deletion
/// time. A merge picks the live ones touching the source itself.
pub const MERGE_EDGE_SCAN: &'static str = "SELECT src_entity_id, dst_entity_id, edge_type, evidence_count, confidence, first_seen, last_seen, deleted_at FROM edges";

/// The edge row `row` (as the merge scan reads it) is live and has
/// `source_id` at one of its ends.
pub open spec fn edge_row_touches(row: Seq<SqlValue>, source_id: i64) -> bool {
    cell_text(row, 7) is None && (cell_int(row, 0, 0) == source_id || cell_int(row, 1, 0) == source_id)
}

/// `edges` are the re-inserts a merge of `source_id` into `target_id`
/// makes for the scanned edge rows `rows`, in order: one for each live
/// row touching the source, with the parameters `spec_repointed_params`
/// gives, none for a row that would join the target to itself.
pub open spec fn repoint_writes_ok(edges: Seq<StoreWrite>, rows: Seq<Seq<SqlValue>>, source_id: i64, target_id: i64) -> bool
    decreases rows.len(),
{
    if rows.len() == 0 {
        edges.len() == 0
    } else {
        let row = rows.last();
        if edge_row_touches(row, source_id) && spec_repoint(
            cell_int(row, 0, 0),
            cell_int(row, 1, 0),
            cell_text_or_empty(row, 2) == "co_mentioned"@,
            source_id,
            target_id,
        ) is Some {
            &&& edges.len() > 0
            &&& edges.last().sql == REINSERT_EDGE@
            &&& spec_repointed_params(Some(edges.last().params), row, source_id, target_id)
            &&& repoint_writes_ok(edges.drop_last(), rows.drop_last(), source_id, target_id)
        } else {
            repoint_writes_ok(edges, rows.drop_last(), source_id, target_id)
        }
    }
}

/// The writes `ws` of a merge re-insert, between the dropping of the
/// source's mentions and the dropping of its edges, exactly the moves of
/// the scanned edge rows `rows`.
pub open spec fn merge_moves(ws: Seq<StoreWrite>, rows: Seq<Seq<SqlValue>>, source_id: i64, target_id: i64) -> bool {
    exists|a: int|
        3 <= a <= ws.len() - 2 && ws[a - 1].sql == DROP_MENTIONS@ && #[trigger] repoint_writes_ok(
            ws.subrange(a, ws.len() - 2),
            rows,
            source_id,
            target_id,
        )
}

/// Every scanned row that a merge moves has its re-insert among the
/// merge's re-inserts.
proof fn lemma_repoint_writes_cover(edges: Seq<StoreWrite>, rows: Seq<Seq<SqlValue>>, source_id: i64, target_id: i64, j: int)
    requires
        repoint_writes_ok(edges, rows, source_id, target_id),
        0 <= j < rows.len(),
        edge_row_touches(rows[j], source_id),
        spec_repoint(
            cell_int(rows[j], 0, 0),
            cell_int(rows[j], 1, 0),
            cell_text_or_empty(rows[j], 2) == "co_mentioned"@,
            source_id,
            target_id,
        ) is Some,
    ensures
        exists|k: int|
            0 <= k < edges.len() && edges[k].sql == REINSERT_EDGE@ && #[trigger] spec_repointed_params(
                Some(edges[k].params),
                rows[j],
                source_id,
                target_id,
            ),
    decreases rows.len(),
{
    if j == rows.len() - 1 {
        let k = edges.len() - 1;
        assert(rows.last() == rows[j]);
        assert(edges.last() == edges[k]);
    } else {
        assert(rows.drop_last()[j] == rows[j]);
        let row = rows.last();
        if edge_row_touches(row, source_id) && spec_repoint(
            cell_int(row, 0, 0),
            cell_int(row, 1, 0),
            cell_text_or_empty(row, 2) == "co_mentioned"@,
            source_id,
            target_id,
        ) is Some {
            lemma_repoint_writes_cover(edges.drop_last(), rows.drop_last(), source_id, target_id, j);
            let k = choose|k: int|
                0 <= k < edges.drop_last().len() && edges.drop_last()[k].sql == REINSERT_EDGE@ && #[trigger] spec_repointed_params(
                    Some(edges.drop_last()[k].params),
                    rows.drop_last()[j],
                    source_id,
                    target_id,
                );
            assert(edges.drop_last()[k] == edges[k]);
        } else {
            lemma_repoint_writes_cover(edges, rows.drop_last(), source_id, target_id, j);
        }
    }
}

/// A merge re-inserts every live edge that has the source at either end,
/// incoming and outgoing alike, unless its other end is the target: the
/// target takes the source's place, a directed edge keeps its direction,
/// a co-occurrence edge keeps the smaller id first, and the type is kept.
pub proof fn law_merge_moves_every_edge_of_source(
    ws: Seq<StoreWrite>,
    rows: Seq<Seq<SqlValue>>,
    source_id: i64,
    target_id: i64,
    j: int,
)
    requires
        merge_moves(ws, rows, source_id, target_id),
        0 <= j < rows.len(),
        cell_text(rows[j], 7) is None,
        cell_int(rows[j], 0, 0) == source_id || cell_int(rows[j], 1, 0) == source_id,
        (if cell_int(rows[j], 0, 0) == source_id { cell_int(rows[j], 1, 0) } else { cell_int(rows[j], 0, 0) }) != target_id,
    ensures
        exists|k: int|
            0 <= k < ws.len() && (#[trigger] ws[k]).sql == REINSERT_EDGE@ && ws[k].params.len() == 7 && param_text(
                ws[k].params[2],
                cell_text_or_empty(rows[j], 2),
            ) && ({
                let src = cell_int(rows[j], 0, 0);
                let dst = cell_int(rows[j], 1, 0);
                let other = if src == source_id { dst } else { src };
                if cell_text_or_empty(rows[j], 2) == "co_mentioned"@ {
                    param_int(ws[k].params[0], if target_id < other { target_id } else { other })
                        && param_int(ws[k].params[1], if target_id < other { other } else { target_id })
                } else if src == source_id {
                    param_int(ws[k].params[0], target_id) && param_int(ws[k].params[1], dst)
                } else {
                    param_int(ws[k].params[0], src) && param_int(ws[k].params[1], target_id)
                }
            }),
{
    let a = choose|a: int|
        3 <= a <= ws.len() - 2 && ws[a - 1].sql == DROP_MENTIONS@ && #[trigger] repoint_writes_ok(
            ws.subrange(a, ws.len() - 2),
            rows,
            source_id,
            target_id,
        );
    let edges = ws.subrange(a, ws.len() - 2);
    lemma_repoint_writes_cover(edges, rows, source_id, target_id, j);
    let k = choose|k: int|
        0 <= k < edges.len() && edges[k].sql == REINSERT_EDGE@ && #[trigger] spec_repointed_params(
            Some(edges[k].params),
            rows[j],
            source_id,
            target_id,
        );
    assert(ws[a + k] == edges[k]);
}

/// Reads every edge, in the engine's order; the neighbours of an entity
/// are picked from them.
pub const NEIGHBOR_EDGES: &'static str = "SELECT id, src_entity_id, dst_entity_id, edge_type, evidence_count, confidence, first_seen, last_seen, deleted_at FROM edges";

/// How strongly an edge ranks: its evidence count, then when it was last
/// seen, then its id, larger first.
pub open spec fn edge_key(e: Edge) -> SortKey {
    (e.evidence_count, e.last_seen@, e.id)
}

/// The rank of an edge row (id, src, dst, type, evidence, confidence,
/// first seen, last seen, deleted at), as `edge_key` of its decoding.
pub open spec fn row_edge_key(row: Seq<SqlValue>) -> SortKey {
    (cell_int(row, 4, 1), cell_text_or_empty(row, 7), cell_int(row, 0, 0))
}

/// The edge row is live and touches `entity_id`.
pub open spec fn row_touches(row: Seq<SqlValue>, entity_id: i64) -> bool {
    cell_text(row, 8) is None && (cell_int(row, 1, 0) == entity_id || cell_int(row, 2, 0) == entity_id)
}

/// The positions, in order, of the rows that are live edges touching
/// `entity_id`.
pub open spec fn candidate_rows(rows: Seq<Seq<SqlValue>>, entity_id: i64) -> Seq<usize>
    decreases rows.len(),
{
    if rows.len() == 0 {
        Seq::empty()
    } else if row_touches(rows.last(), entity_id) {
        candidate_rows(rows.drop_last(), entity_id).push((rows.len() - 1) as usize)
    } else {
        candidate_rows(rows.drop_last(), entity_id)
    }
}

/// The ranks of the candidate rows, in order.
pub open spec fn candidate_keys(rows: Seq<Seq<SqlValue>>, entity_id: i64) -> Seq<SortKey> {
    candidate_rows(rows, entity_id).map_values(|j: usize| row_edge_key(rows[j as int]))
}

/// `v` are neighbors chosen from the edge rows `rows`: `picked` are the
/// best `limit` of the live edges touching `entity_id`, best first, and
/// `v` keeps, in that order, those whose other end could be read.
pub open spec fn neighbors_chosen(v: Seq<EntityNeighbor>, rows: Seq<SqlRow>, picked: Seq<usize>, entity_id: i64, limit: i64) -> bool {
    let ck = candidate_keys(crate::db::rows_view(rows), entity_id);
    &&& picks_best(picked, ck, limit)
    &&& exists|from: Seq<int>|
        #![trigger from.len()]
        from.len() == v.len() && (forall|k: int, m: int| 0 <= k < m < from.len() ==> from[k] < from[m]) && (forall|k: int|
            0 <= k < v.len() ==> 0 <= from[k] < picked.len() && edge_key((#[trigger] v[k]).edge) == ck[picked[from[k]] as int])
}

/// Every live edge row touching the entity is a candidate.
proof fn lemma_candidate_rows_contain(rows: Seq<Seq<SqlValue>>, entity_id: i64, j: int)
    requires
        0 <= j < rows.len(),
        row_touches(rows[j], entity_id),
    ensures
        exists|c: int| 0 <= c < candidate_rows(rows, entity_id).len() && #[trigger] candidate_rows(rows, entity_id)[c] == j as usize,
    decreases rows.len(),
{
    let cr = candidate_rows(rows, entity_id);
    if j == rows.len() - 1 {
        assert(rows.last() == rows[j]);
        assert(cr[cr.len() - 1] == j as usize);
    } else {
        assert(rows.drop_last()[j] == rows[j]);
        lemma_candidate_rows_contain(rows.drop_last(), entity_id, j);
        let prev = candidate_rows(rows.drop_last(), entity_id);
        let c = choose|c: int| 0 <= c < prev.len() && #[trigger] prev[c] == j as usize;
        assert(cr[c] == prev[c]);
    }
}

/// The candidate positions are positions of rows.
proof fn lemma_candidate_rows_bound(rows: Seq<Seq<SqlValue>>, entity_id: i64)
    requires
        rows.len() <= usize::MAX,
    ensures
        candidate_rows(rows, entity_id).len() <= rows.len(),
        forall|c: int| 0 <= c < candidate_rows(rows, entity_id).len() ==> (#[trigger] candidate_rows(rows, entity_id)[c]) < rows.len(),
    decreases rows.len(),
{
    if rows.len() > 0 {
        lemma_candidate_rows_bound(rows.drop_last(), entity_id);
    }
}

/// An entity's neighbours come strongest first: each has at least the
/// evidence of every neighbour after it; and no live edge touching the
/// entity (at either end) that was passed over has more evidence than
/// any neighbour returned.
pub proof fn law_neighbors_strongest_first(
    v: Seq<EntityNeighbor>,
    rows: Seq<SqlRow>,
    picked: Seq<usize>,
    entity_id: i64,
    limit: i64,
)
    requires
        neighbors_chosen(v, rows, picked, entity_id, limit),
        rows.len() <= usize::MAX,
    ensures
        forall|k: int, m: int|
            #![trigger v[k], v[m]]
            0 <= k < m < v.len() ==> v[m].edge.evidence_count <= v[k].edge.evidence_count,
        forall|j: int, k: int|
            #![trigger rows[j], v[k]]
            0 <= j < rows.len() && 0 <= k < v.len() && cell_text(rows[j]@, 8) is None && (cell_int(rows[j]@, 1, 0)
                == entity_id || cell_int(rows[j]@, 2, 0) == entity_id) && !(exists|p: int|
                0 <= p < picked.len() && candidate_rows(crate::db::rows_view(rows), entity_id)[picked[p] as int] == j as usize)
                ==> cell_int(rows[j]@, 4, 1) <= v[k].edge.evidence_count,
{
    let rv = crate::db::rows_view(rows);
    let ck = candidate_keys(rv, entity_id);
    let cr = candidate_rows(rv, entity_id);
    lemma_candidate_rows_bound(rv, entity_id);
    let from = choose|from: Seq<int>|
        #![trigger from.len()]
        from.len() == v.len() && (forall|k: int, m: int| 0 <= k < m < from.len() ==> from[k] < from[m]) && (forall|k: int|
            0 <= k < v.len() ==> 0 <= from[k] < picked.len() && edge_key((#[trigger] v[k]).edge) == ck[picked[from[k]] as int]);
    assert forall|k: int, m: int| 0 <= k < m < v.len() implies v[m].edge.evidence_count <= v[k].edge.evidence_count by {
        assert(edge_key(v[k].edge) == ck[picked[from[k]] as int]);
        assert(edge_key(v[m].edge) == ck[picked[from[m]] as int]);
        assert(!key_before(ck[picked[from[m]] as int], ck[picked[from[k]] as int]));
    }
    assert forall|j: int, k: int|
        0 <= j < rows.len() && 0 <= k < v.len() && cell_text(rows[j]@, 8) is None && (cell_int(rows[j]@, 1, 0) == entity_id
            || cell_int(rows[j]@, 2, 0) == entity_id) && !(exists|p: int|
            0 <= p < picked.len() && cr[picked[p] as int] == j as usize) implies cell_int(rows[j]@, 4, 1)
        <= v[k].edge.evidence_count by {
        assert(rv[j] == rows[j]@);
        lemma_candidate_rows_contain(rv, entity_id, j);
        let c = choose|c: int| 0 <= c < cr.len() && #[trigger] cr[c] == j as usize;
        assert(ck[c] == row_edge_key(rv[cr[c] as int]));
        assert(cr[c] as int == j);
        if picked.contains(c as usize) {
            let p = choose|p: int| 0 <= p < picked.len() && picked[p] == c as usize;
            assert(picked[p] as int == c);
            assert(cr[picked[p] as int] == j as usize);
        }
        assert(edge_key(v[k].edge) == ck[picked[from[k]] as int]);
        assert(!key_before(ck[c], ck[picked[from[k]] as int]));
    }
}

/// Soft-deletes the live edges touching an entity (?2).
pub const DROP_SOURCE_EDGES: &'static str = "UPDATE edges SET deleted_at = ?1
             WHERE (src_entity_id = ?2 OR dst_entity_id = ?2) AND deleted_at IS NULL";

/// Soft-deletes an entity whatever its state.
pub const SOFT_DELETE_ENTITY_ROW: &'static str = "UPDATE entities SET deleted_at = ?1 WHERE id = ?2";

/// `w` registers the normalized alias `alias` for `entity_id`, from `source`.
pub open spec fn alias_write(w: StoreWrite, entity_id: i64, alias: Seq<char>, source: Seq<char>) -> bool {
    w.sql == INSERT_ALIAS@ && w.params.len() == 3 && param_int(w.params[0], entity_id) && param_text(w.params[1], alias)
        && param_text(w.params[2], source)
}

/// `w` re-inserts an edge of the source as a merge into the target moves
/// it (see `spec_repointed_params`).
pub open spec fn repointed_write(w: StoreWrite, source_id: i64, target_id: i64) -> bool {
    w.sql == REINSERT_EDGE@ && exists|row: Seq<SqlValue>| #[trigger] spec_repointed_params(Some(w.params), row, source_id, target_id)
}

/// `ws` are the writes of merging `source_id` into `target_id`, in order:
/// the source's aliases copied to the target, the source's name registered
/// as an alias of the target (unless it normalizes to nothing), the
/// source's mentions copied to the target, the source's mentions dropped,
/// each of the source's edges re-inserted as moved to the target (an edge
/// to the target itself is not), the source's edges soft-deleted, and the
/// source soft-deleted.
pub open spec fn merge_writes(ws: Seq<StoreWrite>, source_id: i64, target_id: i64) -> bool {
    exists|w1: StoreWrite, alias: Seq<StoreWrite>, w2: StoreWrite, w3: StoreWrite, edges: Seq<StoreWrite>, w4: StoreWrite, w5: StoreWrite|
        #![trigger merge_pieces(ws, w1, alias, w2, w3, edges, w4, w5, source_id, target_id)]
        merge_pieces(ws, w1, alias, w2, w3, edges, w4, w5, source_id, target_id)
}

/// The pieces of the writes of a merge (see `merge_writes`).
pub open spec fn merge_pieces(
    ws: Seq<StoreWrite>,
    w1: StoreWrite,
    alias: Seq<StoreWrite>,
    w2: StoreWrite,
    w3: StoreWrite,
    edges: Seq<StoreWrite>,
    w4: StoreWrite,
    w5: StoreWrite,
    source_id: i64,
    target_id: i64,
) -> bool {
    &&& ws == seq![w1] + alias + seq![w2, w3] + edges + seq![w4, w5]
    &&& w1.sql == COPY_ALIASES@ && w1.params == seq![SqlValue::Integer(target_id), SqlValue::Integer(source_id)]
    &&& alias.len() <= 1
    &&& (alias.len() == 1 ==> exists|a: Seq<char>| #[trigger] alias_write(alias[0], target_id, a, "merged"@))
    &&& w2.sql == COPY_MENTIONS@ && w2.params == seq![SqlValue::Integer(target_id), SqlValue::Integer(source_id)]
    &&& w3.sql == DROP_MENTIONS@ && w3.params == seq![SqlValue::Integer(source_id)]
    &&& forall|k: int| 0 <= k < edges.len() ==> #[trigger] repointed_write(edges[k], source_id, target_id)
    &&& w4.sql == DROP_SOURCE_EDGES@ && w4.params.len() == 2 && w4.params[0] is Text && param_int(w4.params[1], source_id)
    &&& w5.sql == SOFT_DELETE_ENTITY_ROW@ && w5.params.len() == 2 && w5.params[0] is Text && param_int(w5.params[1], source_id)
}

/// The pieces of a merge's writes make up its writes.
proof fn lemma_merge_writes(
    ws: Seq<StoreWrite>,
    w1: StoreWrite,
    alias: Seq<StoreWrite>,
    w2: StoreWrite,
    w3: StoreWrite,
    edges: Seq<StoreWrite>,
    w4: StoreWrite,
    w5: StoreWrite,
    source_id: i64,
    target_id: i64,
)
    requires
        merge_pieces(ws, w1, alias, w2, w3, edges, w4, w5, source_id, target_id),
    ensures
        merge_writes(ws, source_id, target_id),
{
}

/// Links an observation to an entity, once.
pub const INSERT_MENTION: &'static str = "INSERT OR IGNORE INTO mentions (observation_id, entity_id) VALUES (?1, ?2)";

/// Creates an edge, or adds one piece of evidence to it and refreshes
/// `last_seen` when it exists.
pub const UPSERT_EDGE: &'static str = "INSERT INTO edges (src_entity_id, dst_entity_id, edge_type, evidence_count, confidence, first_seen, last_seen) VALUES (?1, ?2, ?3, 1, 1.0, ?4, ?4) ON CONFLICT(src_entity_id, dst_entity_id, edge_type) DO UPDATE SET evidence_count = evidence_count + 1, last_seen = ?4";

/// Stores an entity's compiled truth and when it was compiled.
pub const SET_COMPILED_TRUTH: &'static str = "UPDATE entities SET compiled_truth = ?1, compiled_at = ?2 WHERE id = ?3";

/// Renames and retypes an existing entity.
pub const UPDATE_ENTITY_ROW: &'static str = "UPDATE entities SET kind = ?1, canonical_name = ?2, updated_at = ?3 WHERE id = ?4";

/// Inserts a new entity.
pub const INSERT_ENTITY_ROW: &'static str = "INSERT INTO entities (kind, canonical_name, slug, project, scope, created_at, updated_at) VALUES (?1, ?2, ?3, ?4, ?5, ?6, ?7)";

/// The aliases that `raw` registers, in order: each with private blocks
/// redacted and normalized, those that normalize to nothing left out.
pub open spec fn kept_aliases(raw: Seq<Seq<char>>) -> Seq<Seq<char>>
    decreases raw.len(),
{
    if raw.len() == 0 {
        Seq::empty()
    } else {
        let a = spec_normalize_alias(redact(raw.last()));
        if a.len() > 0 {
            kept_aliases(raw.drop_last()).push(a)
        } else {
            kept_aliases(raw.drop_last())
        }
    }
}

/// `ws` registers `als`, in order, as aliases of entity `id` from `source`.
pub open spec fn alias_writes(ws: Seq<StoreWrite>, id: i64, als: Seq<Seq<char>>, source: Seq<char>) -> bool {
    &&& ws.len() == als.len()
    &&& forall|k: int| 0 <= k < ws.len() ==> #[trigger] alias_write(ws[k], id, als[k], source)
}

/// `w` writes the row of entity `id`: updates its kind and name where it
/// exists, or inserts it with its slug, project and scope.
pub open spec fn entity_row_write(
    w: StoreWrite,
    kind: Seq<char>,
    name: Seq<char>,
    project: Option<Seq<char>>,
    scope: Seq<char>,
    id: i64,
) -> bool {
    ||| w.sql == UPDATE_ENTITY_ROW@ && w.params.len() == 4 && param_text(w.params[0], kind) && param_text(w.params[1], name)
        && w.params[2] is Text && param_int(w.params[3], id)
    ||| w.sql == INSERT_ENTITY_ROW@ && w.params.len() == 7 && param_text(w.params[0], kind) && param_text(w.params[1], name)
        && param_text(w.params[2], spec_entity_slug(name)) && param_opt_text(w.params[3], project) && param_text(
        w.params[4],
        scope,
    ) && w.params[5] is Text && w.params[6] is Text
}

/// The writes of an entity upsert with the clean name `name`, for some
/// entity id: its row, its name as a canonical alias, then the given
/// aliases as provided ones.
pub open spec fn entity_upsert_writes(
    ws: Seq<StoreWrite>,
    kind: Seq<char>,
    name: Seq<char>,
    aliases: Seq<Seq<char>>,
    project: Option<Seq<char>>,
    scope: Seq<char>,
) -> bool {
    exists|id: i64| #[trigger] entity_upsert_writes_for(ws, kind, name, aliases, project, scope, id)
}

/// `entity_upsert_writes` for the entity id `id`.
pub open spec fn entity_upsert_writes_for(
    ws: Seq<StoreWrite>,
    kind: Seq<char>,
    name: Seq<char>,
    aliases: Seq<Seq<char>>,
    project: Option<Seq<char>>,
    scope: Seq<char>,
    id: i64,
) -> bool {
    let canon = kept_aliases(seq![name]);
    let provided = kept_aliases(aliases);
    &&& ws.len() == 1 + canon.len() + provided.len()
    &&& entity_row_write(ws[0], kind, name, project, scope, id)
    &&& alias_writes(ws.subrange(1, 1 + canon.len() as int), id, canon, "canonical"@)
    &&& alias_writes(ws.skip(1 + canon.len() as int), id, provided, "provided"@)
}

/// Sets an entity's kind.
pub const SET_ENTITY_KIND: &'static str = "UPDATE entities SET kind = ?1, updated_at = ?2 WHERE id = ?3";

/// Sets an entity's tier.
pub const SET_ENTITY_TIER: &'static str = "UPDATE entities SET tier = ?1, updated_at = ?2 WHERE id = ?3";

/// Sets an entity's salience.
pub const SET_ENTITY_SALIENCE: &'static str = "UPDATE entities SET salience = ?1, updated_at = ?2 WHERE id = ?3";

/// `w` sets one field of entity `id` with `sql`, to the value `v` meets.
pub open spec fn entity_field_write(w: StoreWrite, sql: Seq<char>, id: i64) -> bool {
    w.sql == sql && w.params.len() == 3 && w.params[1] is Text && param_int(w.params[2], id)
}

/// The writes of an entity update, in order: the kind, the tier and the
/// salience where given, then the added aliases as provided ones.
pub open spec fn entity_update_writes(
    ws: Seq<StoreWrite>,
    id: i64,
    kind: Option<Seq<char>>,
    tier: Option<i32>,
    salience: Option<Seq<char>>,
    aliases: Seq<Seq<char>>,
) -> bool {
    let nk: int = if kind is Some { 1 } else { 0 };
    let nt: int = if tier is Some { 1 } else { 0 };
    let ns: int = if salience is Some { 1 } else { 0 };
    &&& ws.len() == nk + nt + ns + kept_aliases(aliases).len()
    &&& (kind matches Some(k) ==> entity_field_write(ws[0], SET_ENTITY_KIND@, id) && param_text(ws[0].params[0], k))
    &&& (tier matches Some(t) ==> entity_field_write(ws[nk], SET_ENTITY_TIER@, id) && param_int(ws[nk].params[0], t as i64))
    &&& (salience matches Some(x) ==> entity_field_write(ws[nk + nt], SET_ENTITY_SALIENCE@, id) && (
    ws[nk + nt].params[0] matches SqlValue::Real(v) && v@ == x))
    &&& alias_writes(ws.skip(nk + nt + ns), id, kept_aliases(aliases), "provided"@)
}

/// None of `ws` inserts a mention.
pub open spec fn no_mention_inserts(ws: Seq<StoreWrite>) -> bool {
    forall|k: int| 0 <= k < ws.len() ==> (#[trigger] ws[k]).sql != INSERT_MENTION@
}

/// The parameters of the mention inserts among `ws`, in order.
pub open spec fn mention_inserts(ws: Seq<StoreWrite>) -> Seq<Seq<SqlValue>>
    decreases ws.len(),
{
    if ws.len() == 0 {
        Seq::empty()
    } else if ws.last().sql == INSERT_MENTION@ {
        mention_inserts(ws.drop_last()).push(ws.last().params)
    } else {
        mention_inserts(ws.drop_last())
    }
}

/// The ids of a list of entities.
pub open spec fn entity_ids(v: Seq<Entity>) -> Seq<i64> {
    v.map_values(|e: Entity| e.id)
}

/// The parameters of the mention inserts linking observation `obs` to each
/// of `ids`, in order.
pub open spec fn mention_params_for(obs: i64, ids: Seq<i64>) -> Seq<Seq<SqlValue>> {
    ids.map_values(|id: i64| seq![SqlValue::Integer(obs), SqlValue::Integer(id)])
}

/// `ws` creates or strengthens a `co_mentioned` edge for each of `pairs`,
/// in order.
pub open spec fn co_mention_writes(ws: Seq<StoreWrite>, pairs: Seq<(i64, i64)>) -> bool {
    &&& ws.len() == pairs.len()
    &&& forall|k: int| 0 <= k < ws.len() ==> #[trigger] edge_upsert_write(ws[k], pairs[k].0, pairs[k].1, "co_mentioned"@)
}

/// What recording mentions of observation `obs` appends to `old` to give
/// `new`: writes that resolve the entities `ids`, among which one mention
/// insert per entity, in order, and no other, up to position `n`; then one
/// `co_mentioned` edge per pair of them.
pub open spec fn mentions_recorded(old: Seq<StoreWrite>, new: Seq<StoreWrite>, n: int, obs: i64, ids: Seq<i64>) -> bool {
    &&& old.len() <= n <= new.len()
    &&& new.take(old.len() as int) == old
    &&& mention_inserts(new.subrange(old.len() as int, n)) == mention_params_for(obs, ids)
    &&& co_mention_writes(new.skip(n), spec_co_mention_pairs(ids))
}

/// Writes that insert no mention add no mention parameters.
proof fn lemma_mention_inserts_append(a: Seq<StoreWrite>, b: Seq<StoreWrite>)
    ensures
        mention_inserts(a + b) == mention_inserts(a) + mention_inserts(b),
    decreases b.len(),
{
    if b.len() == 0 {
        assert(a + b =~= a);
        assert(mention_inserts(b) =~= Seq::<Seq<SqlValue>>::empty());
        assert(mention_inserts(a) + mention_inserts(b) =~= mention_inserts(a));
    } else {
        assert((a + b).drop_last() =~= a + b.drop_last());
        assert((a + b).last() == b.last());
        lemma_mention_inserts_append(a, b.drop_last());
        if b.last().sql == INSERT_MENTION@ {
            assert(mention_inserts(a) + mention_inserts(b) =~= (mention_inserts(a) + mention_inserts(b.drop_last())).push(b.last().params));
        } else {
            assert(mention_inserts(a) + mention_inserts(b) =~= mention_inserts(a) + mention_inserts(b.drop_last()));
        }
    }
}

/// Writes none of which inserts a mention have no mention parameters.
proof fn lemma_no_mention_inserts(ws: Seq<StoreWrite>)
    requires
        no_mention_inserts(ws),
    ensures
        mention_inserts(ws) == Seq::<Seq<SqlValue>>::empty(),
    decreases ws.len(),
{
    if ws.len() > 0 {
        assert(ws.last() == ws[ws.len() - 1]);
        lemma_no_mention_inserts(ws.drop_last());
    }
}

/// The statements of an entity upsert are no mention insert.
proof fn lemma_entity_sqls_insert_no_mention()
    ensures
        "BEGIN"@ != INSERT_MENTION@,
        "COMMIT"@ != INSERT_MENTION@,
        UPDATE_ENTITY_ROW@ != INSERT_MENTION@,
        INSERT_ENTITY_ROW@ != INSERT_MENTION@,
        INSERT_ALIAS@ != INSERT_MENTION@,
{
    reveal_strlit("BEGIN");
    reveal_strlit("COMMIT");
    reveal_strlit("INSERT OR IGNORE INTO mentions (observation_id, entity_id) VALUES (?1, ?2)");
    reveal_strlit("UPDATE entities SET kind = ?1, canonical_name = ?2, updated_at = ?3 WHERE id = ?4");
    reveal_strlit("INSERT INTO entities (kind, canonical_name, slug, project, scope, created_at, updated_at) VALUES (?1, ?2, ?3, ?4, ?5, ?6, ?7)");
    reveal_strlit("INSERT OR IGNORE INTO entity_aliases (entity_id, alias_normalized, source) VALUES (?1, ?2, ?3)");
    assert("BEGIN"@.len() != INSERT_MENTION@.len());
    assert("COMMIT"@.len() != INSERT_MENTION@.len());
    assert(UPDATE_ENTITY_ROW@.len() != INSERT_MENTION@.len());
    assert(INSERT_ENTITY_ROW@.len() != INSERT_MENTION@.len());
    assert(INSERT_ALIAS@.len() != INSERT_MENTION@.len());
}

/// `w` creates or strengthens the edge `src -> dst` of type `edge_type`.
pub open spec fn edge_upsert_write(w: StoreWrite, src: i64, dst: i64, edge_type: Seq<char>) -> bool {
    &&& w.sql == UPSERT_EDGE@ && w.params.len() == 4
    &&& param_int(w.params[0], src) && param_int(w.params[1], dst)
    &&& param_text(w.params[2], edge_type) && w.params[3] is Text
}

/// `w` stores `truth` as the compiled truth of entity `id`.
pub open spec fn truth_write(w: StoreWrite, id: i64, truth: Seq<char>) -> bool {
    &&& w.sql == SET_COMPILED_TRUTH@ && w.params.len() == 3
    &&& param_text(w.params[0], truth) && w.params[1] is Text && param_int(w.params[2], id)
}

/// The columns every entity query selects, in decoding order.
pub const ENTITY_COLS: &'static str = "id, kind, canonical_name, slug, tier, salience, compiled_truth, \
     compiled_at, project, scope, created_at, updated_at, deleted_at";

/// `e` is what the entity columns of `row` hold (see `entity_from_row`); a
/// missing or mistyped column reads as its default.
pub open spec fn decodes_entity(e: Entity, row: Seq<SqlValue>) -> bool {
    &&& e.id == cell_int(row, 0, 0)
    &&& e.kind@ == cell_text_or_empty(row, 1)
    &&& e.canonical_name@ == cell_text_or_empty(row, 2)
    &&& e.slug@ == cell_text_or_empty(row, 3)
    &&& e.tier == super::cell_i32(row, 4, 3)
    &&& e.salience@ == (match cell_real(row, 5) {
        Some(t) => t,
        None => "0"@,
    })
    &&& super::opt_view(e.compiled_truth) == cell_text(row, 6)
    &&& super::opt_view(e.compiled_at) == cell_text(row, 7)
    &&& super::opt_view(e.project) == cell_text(row, 8)
    &&& e.scope@ == cell_text_or_empty(row, 9)
    &&& e.created_at@ == cell_text_or_empty(row, 10)
    &&& e.updated_at@ == cell_text_or_empty(row, 11)
    &&& super::opt_view(e.deleted_at) == cell_text(row, 12)
}

/// Decodes the entity columns of a row: id, kind, canonical_name, slug,
/// tier (default 3), salience (default 0), compiled_truth, compiled_at,
/// project, scope, created_at, updated_at, deleted_at.
pub fn entity_from_row(row: &SqlRow) -> (e: Entity)
    ensures
        decodes_entity(e, row@),
        e.id == crate::sql::cell_int(row@, 0, 0),
        super::opt_view(e.deleted_at) == crate::sql::cell_text(row@, 12),
{
    Entity {
        id: get_int(row, 0, 0),
        kind: get_text(row, 1),
        canonical_name: get_text(row, 2),
        slug: get_text(row, 3),
        tier: get_i32(row, 4, 3),
        salience: get_real(row, 5, "0"),
        compiled_truth: get_opt_text(row, 6),
        compiled_at: get_opt_text(row, 7),
        project: get_opt_text(row, 8),
        scope: get_text(row, 9),
        created_at: get_text(row, 10),
        updated_at: get_text(row, 11),
        deleted_at: get_opt_text(row, 12),
    }
}

/// Decodes the edge columns of a row: id, src_entity_id, dst_entity_id,
/// edge_type, evidence_count (default 1), confidence (default 1),
/// first_seen, last_seen, deleted_at.
pub fn edge_from_row(row: &SqlRow) -> (e: Edge)
    ensures
        e.id == crate::sql::cell_int(row@, 0, 0),
        e.src_entity_id == crate::sql::cell_int(row@, 1, 0),
        e.dst_entity_id == crate::sql::cell_int(row@, 2, 0),
        e.edge_type@ == crate::sql::cell_text_or_empty(row@, 3),
        e.evidence_count == crate::sql::cell_int(row@, 4, 1),
        crate::sql::cell_real(row@, 5) matches Some(t) ==> e.confidence@ == t,
        crate::sql::cell_real(row@, 5) is None ==> e.confidence@ == "1"@,
        e.first_seen@ == crate::sql::cell_text_or_empty(row@, 6),
        e.last_seen@ == crate::sql::cell_text_or_empty(row@, 7),
        super::opt_view(e.deleted_at) == crate::sql::cell_text(row@, 8),
{
    Edge {
        id: get_int(row, 0, 0),
        src_entity_id: get_int(row, 1, 0),
        dst_entity_id: get_int(row, 2, 0),
        edge_type: get_text(row, 3),
        evidence_count: get_int(row, 4, 1),
        confidence: get_real(row, 5, "1"),
        first_seen: get_text(row, 6),
        last_seen: get_text(row, 7),
        deleted_at: get_opt_text(row, 8),
    }
}

/// The entity at the other end of an edge from `entity_id`.
pub open spec fn spec_other_end(src: i64, dst: i64, entity_id: i64) -> i64 {
    if src == entity_id { dst } else { src }
}

/// Picks the entity at the other end of an edge.
pub fn other_end(src: i64, dst: i64, entity_id: i64) -> (r: i64)
    ensures
        r == spec_other_end(src, dst, entity_id),
{
    if src == entity_id { dst } else { src }
}

/// The stored endpoints of a co-occurrence edge between two entities: the
/// smaller id first.
pub open spec fn ordered_pair(a: i64, b: i64) -> (i64, i64) {
    if a < b { (a, b) } else { (b, a) }
}

/// Every co-occurrence pair of a list of entity ids, each pair once, in
/// the order (i, j) with i before j, stored smaller id first.
pub open spec fn spec_co_mention_pairs(ids: Seq<i64>) -> Seq<(i64, i64)>
    decreases ids.len(),
{
    if ids.len() == 0 {
        seq![]
    } else {
        spec_co_mention_pairs(ids.drop_last()) + Seq::new((ids.len() - 1) as nat, |i: int| ordered_pair(ids[i], ids.last()))
    }
}

/// Lists the co-occurrence pairs of entity ids.
pub fn co_mention_pairs(ids: &Vec<i64>) -> (r: Vec<(i64, i64)>)
    ensures
        r@ == spec_co_mention_pairs(ids@),
{
    let mut out: Vec<(i64, i64)> = Vec::new();
    let mut j: usize = 0;
    while j < ids.len()
        invariant
            j <= ids.len(),
            out@ == spec_co_mention_pairs(ids@.take(j as int)),
        decreases ids.len() - j,
    {
        let ghost prefix = ids@.take(j as int + 1);
        proof {
            assert(prefix.drop_last() =~= ids@.take(j as int));
        }
        let mut i: usize = 0;
        let ghost base = out@;
        while i < j
            invariant
                i <= j < ids.len(),
                prefix == ids@.take(j as int + 1),
                out@ == base + Seq::new(i as nat, |k: int| ordered_pair(ids@[k], ids@[j as int])),
            decreases j - i,
        {
            let p = if ids[i] < ids[j] { (ids[i], ids[j]) } else { (ids[j], ids[i]) };
            out.push(p);
            proof {
                assert(out@ =~= base + Seq::new((i + 1) as nat, |k: int| ordered_pair(ids@[k], ids@[j as int])));
            }
            i += 1;
        }
        proof {
            assert(Seq::new(j as nat, |k: int| ordered_pair(ids@[k], ids@[j as int])) =~= Seq::new(
                (prefix.len() - 1) as nat, |k: int| ordered_pair(prefix[k], prefix.last())));
        }
        j += 1;
    }
    assert(ids@.take(j as int) =~= ids@);
    out
}

/// Where a merge moves one of the source entity's edges: `None` when the
/// edge joins the source and the target (it would become a self-loop);
/// otherwise the target takes the source's place, a co-occurrence edge
/// keeping the smaller id first and a directed edge keeping its direction.
pub open spec fn spec_repoint(src: i64, dst: i64, co_mentioned: bool, source_id: i64, target_id: i64) -> Option<(i64, i64)> {
    let other = spec_other_end(src, dst, source_id);
    if other == target_id {
        None
    } else if co_mentioned {
        Some(ordered_pair(target_id, other))
    } else if src == source_id {
        Some((target_id, other))
    } else {
        Some((other, target_id))
    }
}

/// The parameters a merge re-inserts for an edge row of the source
/// (src, dst, type, evidence, confidence, first and last seen): the ends
/// moved as `spec_repoint` says, the rest as stored; none when the edge
/// would join the target to itself.
pub open spec fn spec_repointed_params(p: Option<Seq<SqlValue>>, row: Seq<SqlValue>, source_id: i64, target_id: i64) -> bool {
    match spec_repoint(
        cell_int(row, 0, 0),
        cell_int(row, 1, 0),
        cell_text_or_empty(row, 2) == "co_mentioned"@,
        source_id,
        target_id,
    ) {
        None => p is None,
        Some((a, b)) => p matches Some(q) && q.len() == 7 && param_int(q[0], a) && param_int(q[1], b) && param_text(
            q[2],
            cell_text_or_empty(row, 2),
        ) && param_int(q[3], cell_int(row, 3, 1)) && (q[4] matches SqlValue::Real(x) && x@ == (match cell_real(
            row,
            4,
        ) {
            Some(t) => t,
            None => "1"@,
        })) && param_text(q[5], cell_text_or_empty(row, 5)) && param_text(q[6], cell_text_or_empty(row, 6)),
    }
}

/// Builds what a merge re-inserts for an edge row of the source.
pub fn repointed_params(row: &SqlRow, source_id: i64, target_id: i64) -> (r: Option<Vec<SqlValue>>)
    ensures
        spec_repointed_params(match r { Some(v) => Some(v@), None => None }, row@, source_id, target_id),
{
    let src = get_int(row, 0, 0);
    let dst = get_int(row, 1, 0);
    let edge_type = get_text(row, 2);
    let co = str_eq(edge_type.as_str(), "co_mentioned");
    proof {
        reveal_strlit("co_mentioned");
    }
    match repoint(src, dst, co, source_id, target_id) {
        Some((a, b)) => Some(
            vec![
                SqlValue::Integer(a),
                SqlValue::Integer(b),
                SqlValue::Text(edge_type),
                SqlValue::Integer(get_int(row, 3, 1)),
                SqlValue::Real(get_real(row, 4, "1")),
                SqlValue::Text(get_text(row, 5)),
                SqlValue::Text(get_text(row, 6)),
            ],
        ),
        None => None,
    }
}

/// The answer to a lookup of the live entity `id` from the store's rows:
/// the decoding of the first row when it is that live entity, else
/// `NotFound` naming it.
pub open spec fn spec_entity_by_id(r: DbResult<Entity>, rows: Seq<SqlRow>, id: i64) -> bool {
    if rows.len() > 0 && cell_int(rows[0]@, 0, 0) == id && cell_text(rows[0]@, 12) is None {
        r matches Ok(e) && decodes_entity(e, rows[0]@)
    } else {
        r matches Err(e) && e.code == ErrorCode::NotFound && e.error@ == entity_not_found_message(id)
    }
}

/// The message of a lookup that found no live entity `id`.
pub open spec fn entity_not_found_message(id: i64) -> Seq<char> {
    "Entity "@ + spec_decimal_i64(id) + " not found"@
}

/// Reads the live entity `id` from the store's rows.
pub fn entity_by_id(rows: &Vec<SqlRow>, id: i64) -> (r: DbResult<Entity>)
    ensures
        spec_entity_by_id(r, rows@, id),
{
    if rows.len() > 0 {
        let e = entity_from_row(&rows[0]);
        if e.id == id && e.deleted_at.is_none() {
            return Ok(e);
        }
    }
    let head = concat_str("Entity ", decimal_i64(id).as_str());
    Err(IgrisError::not_found(concat_str(head.as_str(), " not found")))
}

/// Computes where a merge moves an edge.
pub fn repoint(src: i64, dst: i64, co_mentioned: bool, source_id: i64, target_id: i64) -> (r: Option<(i64, i64)>)
    ensures
        r == spec_repoint(src, dst, co_mentioned, source_id, target_id),
{
    let other = other_end(src, dst, source_id);
    if other == target_id {
        None
    } else if co_mentioned {
        if target_id < other { Some((target_id, other)) } else { Some((other, target_id)) }
    } else if src == source_id {
        Some((target_id, other))
    } else {
        Some((other, target_id))
    }
}

/// A merge never creates a self-loop: a moved edge always joins the target
/// to a different entity, and a moved co-occurrence edge keeps the smaller
/// id first.
pub proof fn lemma_repoint_never_self_loop(src: i64, dst: i64, co_mentioned: bool, source_id: i64, target_id: i64)
    ensures
        spec_repoint(src, dst, co_mentioned, source_id, target_id) matches Some((a, b)) ==> a != b
            && (a == target_id || b == target_id),
        co_mentioned ==> (spec_repoint(src, dst, co_mentioned, source_id, target_id) matches Some((a, b)) ==> a < b),
{
}

/// Every stored co-occurrence pair of distinct entities has the smaller id first.
pub proof fn lemma_co_mention_pairs_ordered(ids: Seq<i64>)
    requires
        ids.no_duplicates(),
    ensures
        forall|k: int| 0 <= k < spec_co_mention_pairs(ids).len() ==> (#[trigger] spec_co_mention_pairs(ids)[k]).0
            < spec_co_mention_pairs(ids)[k].1,
        spec_co_mention_pairs(ids).len() == ids.len() * (ids.len() - 1) / 2,
    decreases ids.len(),
{
    if ids.len() > 0 {
        let prev = ids.drop_last();
        assert(prev.no_duplicates()) by {
            assert forall|i: int, j: int| 0 <= i < prev.len() && 0 <= j < prev.len() && i != j implies prev[i] != prev[j] by {
                assert(prev[i] == ids[i] && prev[j] == ids[j]);
            }
        }
        lemma_co_mention_pairs_ordered(prev);
        let tail = Seq::new((ids.len() - 1) as nat, |i: int| ordered_pair(ids[i], ids.last()));
        assert forall|k: int| 0 <= k < tail.len() implies (#[trigger] tail[k]).0 < tail[k].1 by {
            assert(ids[k] != ids[ids.len() - 1]);
        }
        let all = spec_co_mention_pairs(ids);
        assert(all == spec_co_mention_pairs(prev) + tail);
        assert forall|k: int| 0 <= k < all.len() implies (#[trigger] all[k]).0 < all[k].1 by {
            if k < spec_co_mention_pairs(prev).len() {
                assert(all[k] == spec_co_mention_pairs(prev)[k]);
            } else {
                assert(all[k] == tail[k - spec_co_mention_pairs(prev).len()]);
            }
        }
        assert((ids.len() - 1) * (ids.len() - 2) / 2 + (ids.len() - 1) == ids.len() * (ids.len() - 1) / 2)
            by (nonlinear_arith)
            requires ids.len() >= 1;
    }
}


/// One "Connections" line of a compiled truth.
pub open spec fn truth_neighbor_line(n: EntityNeighbor) -> Seq<char> {
    "- "@ + n.entity.canonical_name@ + " — "@ + n.edge.edge_type@ + " ("@ + spec_decimal_i64(n.edge.evidence_count)
        + "×)\n"@
}

/// One "Recent mentions" line of a compiled truth.
pub open spec fn truth_recent_line(o: Observation) -> Seq<char> {
    "- "@ + o.created_at@ + " — "@ + o.title@ + " (#"@ + spec_decimal_i64(o.id) + ")\n"@
}

/// The "Connections" lines of a neighbor list.
pub open spec fn neighbor_lines(v: Seq<EntityNeighbor>) -> Seq<char>
    decreases v.len(),
{
    if v.len() == 0 { seq![] } else { neighbor_lines(v.drop_last()) + truth_neighbor_line(v.last()) }
}

/// The "Recent mentions" lines of an observation list.
pub open spec fn recent_lines(v: Seq<Observation>) -> Seq<char>
    decreases v.len(),
{
    if v.len() == 0 { seq![] } else { recent_lines(v.drop_last()) + truth_recent_line(v.last()) }
}

/// The deterministic Compiled Truth template of an entity: a heading, its
/// kind, its mention and connection counts, then one line per connection
/// and per recent mention (or "_None yet._").
pub open spec fn spec_compiled_truth(entity: Entity, mention_count: i64, neighbors: Seq<EntityNeighbor>, recent: Seq<Observation>) -> Seq<char> {
    "# "@ + entity.canonical_name@ + "\n\n- **Kind:** "@ + entity.kind@ + "\n- **Mentions:** "@
        + spec_decimal_i64(mention_count) + "\n- **Connections:** "@ + crate::text::decimal_digits(neighbors.len())
        + "\n\n## Connections\n"@
        + (if neighbors.len() == 0 { "_None yet._\n"@ } else { neighbor_lines(neighbors) })
        + "\n## Recent mentions\n"@
        + (if recent.len() == 0 { "_None yet._\n"@ } else { recent_lines(recent) })
}

fn push_str(out: &mut String, s: &str)
    ensures
        final(out)@ == old(out)@ + s@,
{
    out.append(s);
}

/// Renders the Compiled Truth of an entity — pure, no I/O.
pub fn format_compiled_truth(entity: &Entity, mention_count: i64, neighbors: &[EntityNeighbor], recent: &[Observation]) -> (r: String)
    ensures
        r@ == spec_compiled_truth(*entity, mention_count, neighbors@, recent@),
{
    let mut out = String::new();
    push_str(&mut out, "# ");
    push_str(&mut out, entity.canonical_name.as_str());
    push_str(&mut out, "\n\n- **Kind:** ");
    push_str(&mut out, entity.kind.as_str());
    push_str(&mut out, "\n- **Mentions:** ");
    push_str(&mut out, decimal_i64(mention_count).as_str());
    push_str(&mut out, "\n- **Connections:** ");
    push_str(&mut out, decimal(neighbors.len() as u64).as_str());
    push_str(&mut out, "\n\n## Connections\n");
    let ghost head = out@;
    if neighbors.len() == 0 {
        push_str(&mut out, "_None yet._\n");
    } else {
        let mut i: usize = 0;
        while i < neighbors.len()
            invariant
                i <= neighbors.len(),
                out@ == head + neighbor_lines(neighbors@.take(i as int)),
            decreases neighbors.len() - i,
        {
            let n = &neighbors[i];
            let ghost before = out@;
            push_str(&mut out, "- ");
            push_str(&mut out, n.entity.canonical_name.as_str());
            push_str(&mut out, " — ");
            push_str(&mut out, n.edge.edge_type.as_str());
            push_str(&mut out, " (");
            push_str(&mut out, decimal_i64(n.edge.evidence_count).as_str());
            push_str(&mut out, "×)\n");
            proof {
                assert(neighbors@.take(i + 1).drop_last() =~= neighbors@.take(i as int));
                assert(out@ =~= before + truth_neighbor_line(neighbors@[i as int]));
            }
            i += 1;
        }
        assert(neighbors@.take(i as int) =~= neighbors@);
    }
    let ghost mid = out@;
    push_str(&mut out, "\n## Recent mentions\n");
    let ghost head2 = out@;
    if recent.len() == 0 {
        push_str(&mut out, "_None yet._\n");
    } else {
        let mut i: usize = 0;
        while i < recent.len()
            invariant
                i <= recent.len(),
                out@ == head2 + recent_lines(recent@.take(i as int)),
            decreases recent.len() - i,
        {
            let o = &recent[i];
            let ghost before = out@;
            push_str(&mut out, "- ");
            push_str(&mut out, o.created_at.as_str());
            push_str(&mut out, " — ");
            push_str(&mut out, o.title.as_str());
            push_str(&mut out, " (#");
            push_str(&mut out, decimal_i64(o.id).as_str());
            push_str(&mut out, ")\n");
            proof {
                assert(recent@.take(i + 1).drop_last() =~= recent@.take(i as int));
                assert(out@ =~= before + truth_recent_line(recent@[i as int]));
            }
            i += 1;
        }
        assert(recent@.take(i as int) =~= recent@);
    }
    assert(out@ =~= spec_compiled_truth(*entity, mention_count, neighbors@, recent@));
    out
}


impl Database {
    /// Registers one alias (normalized, with private blocks redacted) for
    /// an entity; nothing happens for an alias that normalizes to nothing
    /// or is already registered.
    fn add_alias(&mut self, entity_id: i64, raw: &str, source: &str) -> (r: DbResult<()>)
        ensures
            r matches Err(e) ==> e.code == ErrorCode::DatabaseError && final(self).log() == old(self).log(),
            spec_normalize_alias(redact(raw@)).len() == 0 ==> r is Ok && final(self).log() == old(self).log(),
            r is Ok && spec_normalize_alias(redact(raw@)).len() > 0 ==> final(self).log() == old(self).log().push(
                final(self).log().last(),
            ) && alias_write(final(self).log().last(), entity_id, spec_normalize_alias(redact(raw@)), source@),
            final(self).lookups() == old(self).lookups(),
    {
        let normalized = normalize_alias(strip_private_tags(raw).as_str());
        if normalized.unicode_len() == 0 {
            return Ok(());
        }
        let params = vec![SqlValue::Integer(entity_id), SqlValue::Text(normalized), text(source)];
        self.exec(INSERT_ALIAS, params.as_slice())?;
        Ok(())
    }

    /// Creates an entity, or updates the live one with the same slug in the
    /// same project and scope; the name (private blocks redacted) and every
    /// given alias become normalized aliases. Atomic.
    pub fn upsert_entity(
        &mut self,
        kind: &str,
        canonical_name: &str,
        aliases: &[String],
        project: Option<&str>,
        scope: &str,
    ) -> (r: DbResult<Entity>)
        ensures
            r matches Err(e) ==> e.code == ErrorCode::ValidationError || e.code == ErrorCode::DatabaseError
                || e.code == ErrorCode::NotFound,
            r matches Ok(e) ==> e.deleted_at is None,
            !entity_is_valid(kind@, redact(canonical_name@), scope@) ==> (r matches Err(e) && e.code
                == ErrorCode::ValidationError && final(self).log() == old(self).log()),
            r is Ok ==> {
                let ws = final(self).log().skip(old(self).log().len() + 1int).drop_last();
                &&& final(self).log().len() >= old(self).log().len() + 2
                &&& final(self).log() == old(self).log().push(write_of("BEGIN"@, Seq::empty(), 0)) + ws.push(
                    write_of("COMMIT"@, Seq::empty(), 0),
                )
                &&& entity_upsert_writes(
                    ws,
                    kind@,
                    redact(canonical_name@),
                    strings_view(aliases@),
                    opt_str_view(project),
                    scope@,
                )
            },
            r is Ok ==> final(self).log().len() >= old(self).log().len() && final(self).log() == old(self).log()
                + final(self).log().skip(old(self).log().len() as int) && no_mention_inserts(
                final(self).log().skip(old(self).log().len() as int),
            ),
    {
        let ghost start = self.log();
        let clean_name = strip_private_tags(canonical_name);
        if let Err(msg) = validate_entity(kind, clean_name.as_str(), scope) {
            return Err(IgrisError::validation(msg));
        }
        let slug = entity_slug(clean_name.as_str());
        let now = self.now_utc()?;
        self.batch("BEGIN")?;
        let ghost began = self.log();
        let written = self.upsert_entity_rows(kind, clean_name.as_str(), slug.as_str(), aliases, project, scope, now.as_str());
        let entity_id = match written {
            Ok(id) => id,
            Err(e) => {
                let _ = self.batch("ROLLBACK");
                return Err(e);
            },
        };
        let ghost ws = self.log().skip(began.len() as int);
        self.batch("COMMIT")?;
        proof {
            let fin = self.log();
            assert(fin.skip(start.len() + 1int).drop_last() =~= ws);
            assert(fin =~= start.push(write_of("BEGIN"@, Seq::empty(), 0)) + ws.push(write_of("COMMIT"@, Seq::empty(), 0)));
            lemma_entity_sqls_insert_no_mention();
            let all = fin.skip(start.len() as int);
            assert(fin =~= start + all);
            assert forall|k: int| 0 <= k < all.len() implies (#[trigger] all[k]).sql != INSERT_MENTION@ by {
                if k > 0 && k < all.len() - 1 {
                    assert(all[k] == ws[k - 1]);
                }
            }
        }
        self.get_entity(entity_id)
    }

    #[verifier::spinoff_prover]
    #[verifier::rlimit(100)]
    fn upsert_entity_rows(
        &mut self,
        kind: &str,
        clean_name: &str,
        slug: &str,
        aliases: &[String],
        project: Option<&str>,
        scope: &str,
        now: &str,
    ) -> (r: DbResult<i64>)
        requires
            slug@ == spec_entity_slug(clean_name@),
        ensures
            r matches Err(e) ==> e.code == ErrorCode::DatabaseError,
            r is Ok ==> final(self).log().len() >= old(self).log().len() && final(self).log() == old(self).log()
                + final(self).log().skip(old(self).log().len() as int) && entity_upsert_writes(
                final(self).log().skip(old(self).log().len() as int),
                kind@,
                clean_name@,
                strings_view(aliases@),
                opt_str_view(project),
                scope@,
            ),
            r is Ok ==> no_mention_inserts(final(self).log().skip(old(self).log().len() as int)),
    {
        let ghost start = self.log();
        let existing = self.query_opt_int(
            "SELECT id FROM entities
             WHERE slug = ?1
               AND IFNULL(project, '') = IFNULL(?2, '')
               AND scope = ?3
               AND deleted_at IS NULL
             LIMIT 1",
            &[text(slug), opt_text(project), text(scope)],
        )?;
        let entity_id = match existing {
            Some(id) => {
                let params = vec![text(kind), text(clean_name), text(now), SqlValue::Integer(id)];
                self.exec(UPDATE_ENTITY_ROW, params.as_slice())?;
                id
            },
            None => {
                let params = vec![text(kind), text(clean_name), text(slug), opt_text(project), text(scope), text(now), text(now)];
                self.exec(INSERT_ENTITY_ROW, params.as_slice())?;
                self.last_insert_rowid()
            },
        };
        let ghost row = self.log().last();
        proof {
            assert(entity_row_write(row, kind@, clean_name@, opt_str_view(project), scope@, entity_id));
        }
        let ghost after_row = self.log();
        self.add_alias(entity_id, clean_name, "canonical")?;
        let ghost canon = kept_aliases(seq![clean_name@]);
        let ghost canon_ws = self.log().skip(after_row.len() as int);
        proof {
            assert(seq![clean_name@].drop_last() =~= Seq::<Seq<char>>::empty());
            assert(self.log() =~= after_row + canon_ws);
            let a = spec_normalize_alias(redact(clean_name@));
            assert(seq![clean_name@].last() == clean_name@);
            assert(kept_aliases(Seq::<Seq<char>>::empty()) =~= Seq::<Seq<char>>::empty());
            if a.len() > 0 {
                assert(canon =~= seq![a]);
                assert(canon_ws =~= seq![self.log().last()]);
            } else {
                assert(canon =~= Seq::<Seq<char>>::empty());
                assert(canon_ws =~= Seq::<StoreWrite>::empty());
            }
            assert(alias_writes(canon_ws, entity_id, canon, "canonical"@));
        }
        let ghost before_provided = self.log();
        let mut i: usize = 0;
        while i < aliases.len()
            invariant
                i <= aliases.len(),
                self.log().len() >= before_provided.len(),
                self.log() == before_provided + self.log().skip(before_provided.len() as int),
                alias_writes(
                    self.log().skip(before_provided.len() as int),
                    entity_id,
                    kept_aliases(strings_view(aliases@.take(i as int))),
                    "provided"@,
                ),
            decreases aliases.len() - i,
        {
            let ghost prev = self.log();
            proof {
                assert(strings_view(aliases@.take(i as int + 1)).drop_last() =~= strings_view(aliases@.take(i as int)));
                assert(strings_view(aliases@.take(i as int + 1)).last() == aliases@[i as int]@);
            }
            self.add_alias(entity_id, aliases[i].as_str(), "provided")?;
            proof {
                let pw = prev.skip(before_provided.len() as int);
                let nw = self.log().skip(before_provided.len() as int);
                if spec_normalize_alias(redact(aliases@[i as int]@)).len() > 0 {
                    assert(nw =~= pw.push(self.log().last()));
                } else {
                    assert(nw =~= pw);
                }
            }
            i += 1;
        }
        proof {
            assert(aliases@.take(aliases@.len() as int) =~= aliases@);
            let ws = self.log().skip(start.len() as int);
            let pw = self.log().skip(before_provided.len() as int);
            assert(ws[0] == row);
            assert(ws.subrange(1, 1 + canon.len() as int) =~= canon_ws);
            assert(ws.skip(1 + canon.len() as int) =~= pw);
            assert(self.log() =~= start + ws);
            assert(entity_upsert_writes_for(ws, kind@, clean_name@, strings_view(aliases@), opt_str_view(project), scope@, entity_id));
            lemma_entity_sqls_insert_no_mention();
            assert forall|k: int| 0 <= k < ws.len() implies (#[trigger] ws[k]).sql != INSERT_MENTION@ by {
                if k == 0 {
                } else if k < 1 + canon.len() {
                    assert(ws[k] == canon_ws[k - 1]);
                    assert(alias_write(canon_ws[k - 1], entity_id, canon[k - 1], "canonical"@));
                } else {
                    assert(ws[k] == pw[k - 1 - canon.len()]);
                    assert(alias_write(pw[k - 1 - canon.len()], entity_id, kept_aliases(strings_view(aliases@))[k - 1 - canon.len()], "provided"@));
                }
            }
        }
        Ok(entity_id)
    }

    /// Fetches a live entity by id; `NotFound` when it is missing or
    /// soft-deleted.
    pub fn get_entity(&self, id: i64) -> (r: DbResult<Entity>)
        ensures
            r matches Err(e) ==> e.code == ErrorCode::DatabaseError || exists|rows: Seq<SqlRow>|
                #[trigger] spec_entity_by_id(r, rows, id),
            r matches Ok(e) ==> exists|rows: Seq<SqlRow>| #[trigger] spec_entity_by_id(r, rows, id),
            r matches Ok(e) ==> e.id == id && e.deleted_at is None,
            r matches Err(e) ==> e.code == ErrorCode::NotFound || e.code == ErrorCode::DatabaseError,
    {
        let rows = self.query(
            "SELECT id, kind, canonical_name, slug, tier, salience, compiled_truth,
                    compiled_at, project, scope, created_at, updated_at, deleted_at
             FROM entities WHERE id = ?1 AND deleted_at IS NULL",
            &[SqlValue::Integer(id)],
        )?;
        let r = entity_by_id(&rows, id);
        proof {
            assert(spec_entity_by_id(r, rows@, id));
        }
        r
    }

    /// Fetches the live entity with a slug in a project and scope;
    /// `NotFound` when there is none.
    pub fn get_entity_by_slug(&self, slug: &str, project: Option<&str>, scope: &str) -> (r: DbResult<Entity>)
        ensures
            r matches Ok(e) ==> e.deleted_at is None,
            r matches Err(e) ==> e.code == ErrorCode::NotFound || e.code == ErrorCode::DatabaseError,
    {
        let rows = self.query(
            "SELECT id, kind, canonical_name, slug, tier, salience, compiled_truth,
                    compiled_at, project, scope, created_at, updated_at, deleted_at
             FROM entities
             WHERE slug = ?1
               AND IFNULL(project, '') = IFNULL(?2, '')
               AND scope = ?3
               AND deleted_at IS NULL
             LIMIT 1",
            &[text(slug), opt_text(project), text(scope)],
        )?;
        if rows.len() > 0 {
            let e = entity_from_row(&rows[0]);
            if e.deleted_at.is_none() {
                return Ok(e);
            }
        }
        let head = concat_str("Entity '", slug);
        Err(IgrisError::not_found(concat_str(head.as_str(), "' not found")))
    }

    /// Fetches an entity by id when one is given, else by slug (in
    /// `project` and `scope`); with neither, a validation error naming
    /// `tool` that asks for one.
    pub fn lookup_entity(
        &self,
        tool: &str,
        id: Option<i64>,
        slug: Option<&str>,
        project: Option<&str>,
        scope: &str,
    ) -> (r: DbResult<Entity>)
        ensures
            id matches Some(i) ==> (r matches Ok(e) ==> e.id == i && e.deleted_at is None),
            id matches Some(i) ==> (r matches Err(e) ==> e.code == ErrorCode::NotFound || e.code == ErrorCode::DatabaseError),
            id is None && slug is Some ==> (r matches Ok(e) ==> e.deleted_at is None),
            id is None && slug is Some ==> (r matches Err(e) ==> e.code == ErrorCode::NotFound || e.code == ErrorCode::DatabaseError),
            id is None && slug is None ==> (r matches Err(e) && e.code == ErrorCode::ValidationError
                && e.error@ == tool@ + " requires either 'id' or 'slug'"@),
    {
        match (id, slug) {
            (Some(i), _) => self.get_entity(i),
            (None, Some(s)) => self.get_entity_by_slug(s, project, scope),
            (None, None) => Err(IgrisError::validation(concat_str(tool, " requires either 'id' or 'slug'"))),
        }
    }

    /// Updates an entity's kind, tier and/or salience (decimal text) and
    /// adds aliases; the slug never changes. At least one change is
    /// required; `NotFound` for a missing entity.
    pub fn update_entity(
        &mut self,
        id: i64,
        kind: Option<&str>,
        tier: Option<i32>,
        salience: Option<&str>,
        add_aliases: &[String],
    ) -> (r: DbResult<Entity>)
        ensures
            (kind is None && tier is None && salience is None && add_aliases@.len() == 0) ==> (r matches Err(e)
                && e.code == ErrorCode::ValidationError),
            r matches Ok(e) ==> e.id == id,
            r matches Err(e) && e.code == ErrorCode::ValidationError ==> final(self).log() == old(self).log(),
            r is Ok ==> final(self).log().len() >= old(self).log().len() && final(self).log() == old(self).log()
                + final(self).log().skip(old(self).log().len() as int) && entity_update_writes(
                final(self).log().skip(old(self).log().len() as int),
                id,
                opt_str_view(kind),
                tier,
                opt_str_view(salience),
                strings_view(add_aliases@),
            ),
    {
        let ghost start = self.log();
        if let Err(msg) = validate_entity_update_has_fields(kind, tier, salience.is_some(), add_aliases) {
            return Err(IgrisError::validation(msg));
        }
        self.get_entity(id)?;
        if let Some(k) = kind {
            if let Err(msg) = validate_entity_kind(k) {
                return Err(IgrisError::validation(msg));
            }
        }
        let now = self.now_utc()?;
        if let Some(k) = kind {
            let params = vec![text(k), SqlValue::Text(now.clone()), SqlValue::Integer(id)];
            self.exec(SET_ENTITY_KIND, params.as_slice())?;
        }
        let ghost after_kind = self.log();
        if let Some(t) = tier {
            let params = vec![SqlValue::Integer(t as i64), SqlValue::Text(now.clone()), SqlValue::Integer(id)];
            self.exec(SET_ENTITY_TIER, params.as_slice())?;
        }
        let ghost after_tier = self.log();
        if let Some(sal) = salience {
            let params = vec![SqlValue::Real(String::from_str(sal)), SqlValue::Text(now.clone()), SqlValue::Integer(id)];
            self.exec(SET_ENTITY_SALIENCE, params.as_slice())?;
        }
        let ghost before_provided = self.log();
        let mut i: usize = 0;
        while i < add_aliases.len()
            invariant
                i <= add_aliases.len(),
                self.log().len() >= before_provided.len(),
                self.log() == before_provided + self.log().skip(before_provided.len() as int),
                alias_writes(
                    self.log().skip(before_provided.len() as int),
                    id,
                    kept_aliases(strings_view(add_aliases@.take(i as int))),
                    "provided"@,
                ),
            decreases add_aliases.len() - i,
        {
            let ghost prev = self.log();
            proof {
                assert(strings_view(add_aliases@.take(i as int + 1)).drop_last() =~= strings_view(add_aliases@.take(i as int)));
                assert(strings_view(add_aliases@.take(i as int + 1)).last() == add_aliases@[i as int]@);
            }
            self.add_alias(id, add_aliases[i].as_str(), "provided")?;
            proof {
                let pw = prev.skip(before_provided.len() as int);
                let nw = self.log().skip(before_provided.len() as int);
                if spec_normalize_alias(redact(add_aliases@[i as int]@)).len() > 0 {
                    assert(nw =~= pw.push(self.log().last()));
                } else {
                    assert(nw =~= pw);
                }
            }
            i += 1;
        }
        proof {
            assert(add_aliases@.take(add_aliases@.len() as int) =~= add_aliases@);
            let ws = self.log().skip(start.len() as int);
            let nk: int = if kind is Some { 1 } else { 0 };
            let nt: int = if tier is Some { 1 } else { 0 };
            let ns: int = if salience is Some { 1 } else { 0 };
            assert(after_kind.len() == start.len() + nk);
            assert(after_tier.len() == after_kind.len() + nt);
            assert(before_provided.len() == after_tier.len() + ns);
            assert(self.log() =~= start + ws);
            if kind is Some {
                assert(ws[0] == after_kind.last());
            }
            if tier is Some {
                assert(ws[nk] == after_tier.last());
            }
            if salience is Some {
                assert(ws[nk + nt] == before_provided.last());
            }
            assert(ws.skip(nk + nt + ns) =~= self.log().skip(before_provided.len() as int));
        }
        self.get_entity(id)
    }

    /// Links an observation to an entity (idempotent).
    pub fn add_mention(&mut self, observation_id: i64, entity_id: i64) -> (r: DbResult<()>)
        ensures
            r matches Err(e) ==> e.code == ErrorCode::DatabaseError && final(self).log() == old(self).log(),
            r is Ok ==> final(self).log().len() == old(self).log().len() + 1 && final(self).log().drop_last() == old(
                self,
            ).log() && final(self).log().last().sql == INSERT_MENTION@ && final(self).log().last().params == seq![
                SqlValue::Integer(observation_id),
                SqlValue::Integer(entity_id),
            ],
    {
        let params = vec![SqlValue::Integer(observation_id), SqlValue::Integer(entity_id)];
        self.exec(INSERT_MENTION, params.as_slice())?;
        Ok(())
    }

    /// The entity a mention names: the most recently updated live entity of
    /// the project and scope with that normalized alias, else a new stub
    /// entity of kind `other`.
    pub fn resolve_or_stub_entity(&mut self, mention: &str, project: Option<&str>, scope: &str) -> (r: DbResult<Entity>)
        ensures
            r matches Ok(e) ==> e.deleted_at is None,
            r is Ok ==> final(self).log().len() >= old(self).log().len() && final(self).log() == old(self).log()
                + final(self).log().skip(old(self).log().len() as int) && no_mention_inserts(
                final(self).log().skip(old(self).log().len() as int),
            ),
    {
        let normalized = normalize_alias(mention);
        let existing = self.query_opt_int(
            "SELECT a.entity_id
             FROM entity_aliases a
             JOIN entities e ON e.id = a.entity_id
             WHERE a.alias_normalized = ?1
               AND IFNULL(e.project, '') = IFNULL(?2, '')
               AND e.scope = ?3
               AND e.deleted_at IS NULL
             ORDER BY datetime(e.updated_at) DESC
             LIMIT 1",
            &[SqlValue::Text(normalized), opt_text(project), text(scope)],
        )?;
        match existing {
            Some(id) => {
                proof {
                    assert(self.log() =~= old(self).log() + self.log().skip(old(self).log().len() as int));
                }
                self.get_entity(id)
            },
            None => self.upsert_entity("other", mention, &[], project, scope),
        }
    }

    /// Creates a typed edge between two entities, or strengthens it (one
    /// more piece of evidence, refreshed `last_seen`) when it exists.
    pub fn upsert_edge(&mut self, src_entity_id: i64, dst_entity_id: i64, edge_type: &str) -> (r: DbResult<Edge>)
        ensures
            r matches Ok(e) ==> e.src_entity_id == src_entity_id && e.dst_entity_id == dst_entity_id,
            r matches Err(e) ==> e.code == ErrorCode::DatabaseError,
            r is Ok ==> final(self).log() == old(self).log().push(final(self).log().last()) && edge_upsert_write(
                final(self).log().last(),
                src_entity_id,
                dst_entity_id,
                edge_type@,
            ),
    {
        let now = self.now_utc()?;
        let params = vec![SqlValue::Integer(src_entity_id), SqlValue::Integer(dst_entity_id), text(edge_type), SqlValue::Text(now)];
        self.exec(UPSERT_EDGE, params.as_slice())?;
        let rows = self.query(
            "SELECT id, src_entity_id, dst_entity_id, edge_type, evidence_count, confidence, first_seen, last_seen, deleted_at
             FROM edges
             WHERE src_entity_id = ?1 AND dst_entity_id = ?2 AND edge_type = ?3",
            &[SqlValue::Integer(src_entity_id), SqlValue::Integer(dst_entity_id), text(edge_type)],
        )?;
        if rows.len() > 0 {
            let e = edge_from_row(&rows[0]);
            if e.src_entity_id == src_entity_id && e.dst_entity_id == dst_entity_id {
                return Ok(e);
            }
        }
        Err(IgrisError::database(String::from_str(NO_ROWS_MESSAGE)))
    }

    /// Resolves every mention to an entity (stubbing unknown ones), links
    /// each to the observation, and records a `co_mentioned` edge for every
    /// pair of distinct entities. The resolved entities come back once
    /// each, in first-seen order.
    #[verifier::spinoff_prover]
    #[verifier::rlimit(100)]
    pub fn record_mentions(
        &mut self,
        observation_id: i64,
        mentions: &[String],
        project: Option<&str>,
        scope: &str,
    ) -> (r: DbResult<Vec<Entity>>)
        ensures
            r matches Ok(v) ==> v@.len() <= mentions@.len(),
            r matches Ok(v) ==> forall|i: int, j: int| 0 <= i < j < v@.len() ==> v@[i].id != v@[j].id,
            r matches Ok(v) ==> forall|k: int| 0 <= k < v@.len() ==> (#[trigger] v@[k]).deleted_at is None,
            (forall|j: int| 0 <= j < mentions@.len() ==> spec_normalize_alias(#[trigger] mentions@[j]@).len() == 0)
                ==> (r matches Ok(v) && v@.len() == 0),
            r matches Ok(v) ==> exists|n: int| #[trigger] mentions_recorded(
                old(self).log(),
                final(self).log(),
                n,
                observation_id,
                entity_ids(v@),
            ),
    {
        let ghost start = self.log();
        let mut resolved: Vec<Entity> = Vec::new();
        let mut ids: Vec<i64> = Vec::new();
        let mut i: usize = 0;
        while i < mentions.len()
            invariant
                i <= mentions.len(),
                resolved@.len() == ids@.len(),
                ids@.len() <= i,
                forall|k: int| 0 <= k < ids@.len() ==> (#[trigger] resolved@[k]).id == ids@[k],
                forall|a: int, b: int| 0 <= a < b < resolved@.len() ==> resolved@[a].id != resolved@[b].id,
                forall|k: int| 0 <= k < resolved@.len() ==> (#[trigger] resolved@[k]).deleted_at is None,
                (forall|j: int| 0 <= j < i ==> spec_normalize_alias(#[trigger] mentions@[j]@).len() == 0) ==> resolved@.len()
                    == 0,
                self.log().len() >= start.len(),
                self.log() == start + self.log().skip(start.len() as int),
                mention_inserts(self.log().skip(start.len() as int)) == mention_params_for(observation_id, ids@),
            decreases mentions.len() - i,
        {
            let m = mentions[i].as_str();
            let normalized = normalize_alias(m);
            if normalized.unicode_len() > 0 {
                let ghost before = self.log();
                let entity = self.resolve_or_stub_entity(m, project, scope)?;
                proof {
                    let added = self.log().skip(before.len() as int);
                    lemma_no_mention_inserts(added);
                    assert(self.log().skip(start.len() as int) =~= before.skip(start.len() as int) + added);
                    lemma_mention_inserts_append(before.skip(start.len() as int), added);
                    assert(mention_inserts(self.log().skip(start.len() as int)) =~= mention_params_for(observation_id, ids@));
                    assert(self.log() =~= start + self.log().skip(start.len() as int));
                }
                if !contains_i64(&ids, entity.id) {
                    let ghost before_mention = self.log();
                    self.add_mention(observation_id, entity.id)?;
                    proof {
                        assert forall|k: int| 0 <= k < resolved@.len() implies resolved@[k].id != entity.id by {
                            assert(resolved@[k].id == ids@[k]);
                        }
                        let prev = before_mention.skip(start.len() as int);
                        let now = self.log().skip(start.len() as int);
                        assert(before_mention =~= start + prev);
                        assert(self.log() =~= before_mention.push(self.log().last()));
                        assert(now =~= prev.push(self.log().last()));
                        assert(now.drop_last() =~= prev);
                        assert(self.log() =~= start + now);
                        assert(mention_params_for(observation_id, ids@.push(entity.id)) =~= mention_params_for(
                            observation_id,
                            ids@,
                        ).push(seq![SqlValue::Integer(observation_id), SqlValue::Integer(entity.id)]));
                    }
                    ids.push(entity.id);
                    resolved.push(entity);
                }
            }
            i += 1;
        }
        let ghost mid = self.log();
        proof {
            assert(entity_ids(resolved@) =~= ids@);
        }
        let pairs = co_mention_pairs(&ids);
        proof {
            if ids@.len() == 0 {
                assert(pairs@.len() == 0);
            }
        }
        let mut k: usize = 0;
        while k < pairs.len()
            invariant
                k <= pairs.len(),
                (forall|j: int| 0 <= j < mentions@.len() ==> spec_normalize_alias(#[trigger] mentions@[j]@).len() == 0)
                    ==> pairs@.len() == 0,
                self.log().len() >= mid.len(),
                self.log() == mid + self.log().skip(mid.len() as int),
                co_mention_writes(self.log().skip(mid.len() as int), pairs@.take(k as int)),
            decreases pairs.len() - k,
        {
            let ghost before = self.log();
            self.upsert_edge(pairs[k].0, pairs[k].1, "co_mentioned")?;
            proof {
                let prev = before.skip(mid.len() as int);
                let now = self.log().skip(mid.len() as int);
                assert(now =~= prev.push(self.log().last()));
                assert(self.log() =~= mid + now);
                assert(pairs@.take(k as int + 1) =~= pairs@.take(k as int).push(pairs@[k as int]));
                assert forall|j: int| 0 <= j < now.len() implies #[trigger] edge_upsert_write(
                    now[j],
                    pairs@.take(k as int + 1)[j].0,
                    pairs@.take(k as int + 1)[j].1,
                    "co_mentioned"@,
                ) by {
                    if j < prev.len() {
                        assert(now[j] == prev[j]);
                        assert(pairs@.take(k as int + 1)[j] == pairs@.take(k as int)[j]);
                    }
                }
            }
            k += 1;
        }
        proof {
            assert(pairs@.take(pairs@.len() as int) =~= pairs@);
            let n = mid.len() as int;
            let fin = self.log();
            assert(fin.take(start.len() as int) =~= start);
            assert(fin.subrange(start.len() as int, n) =~= mid.skip(start.len() as int));
            assert(mentions_recorded(start, fin, n, observation_id, entity_ids(resolved@)));
        }
        Ok(resolved)
    }

    /// Saves an observation (as `save_observation` does) and then, when a
    /// non-empty mention list is given, links it to the mentioned entities
    /// in its project and scope. The save stands whatever the linking does:
    /// a linking failure comes back beside the saved observation.
    #[verifier::spinoff_prover]
    #[verifier::rlimit(100)]
    pub fn save_with_mentions(
        &mut self,
        title: &str,
        content: &str,
        obs_type: &str,
        project: Option<&str>,
        scope: &str,
        topic_key: Option<&str>,
        tags: Option<&[String]>,
        session_id: Option<&str>,
        mentions: Option<&[String]>,
    ) -> (r: (DbResult<Observation>, Option<IgrisError>))
        ensures
            !save_is_valid(title@, content@, obs_type@, scope@) ==> (r.0 matches Err(e) && e.code
                == ErrorCode::ValidationError),
            save_is_valid(title@, content@, obs_type@, scope@) ==> (r.0 matches Err(e) ==> e.code
                == ErrorCode::DatabaseError),
            r.0 is Err ==> r.1 is None,
            !(mentions matches Some(m) && m@.len() > 0) ==> r.1 is None,
            r.1 is None ==> (r.0 matches Ok(o) ==> {
                let w = final(self).log()[old(self).log().len() as int];
                &&& final(self).log().len() > old(self).log().len()
                &&& save_write(
                    w,
                    title@,
                    content@,
                    obs_type@,
                    opt_str_view(project),
                    scope@,
                    opt_str_view(topic_key),
                    tags_arg(tags),
                    opt_str_view(session_id),
                )
                &&& (!(mentions matches Some(m) && m@.len() > 0) ==> final(self).log() == old(self).log().push(w))
                &&& ((mentions matches Some(m) && m@.len() > 0) ==> exists|n: int, ids: Seq<i64>|
                    #[trigger] mentions_recorded(old(self).log().push(w), final(self).log(), n, o.id, ids))
            }),
    {
        let saved = self.save_observation(title, content, obs_type, project, scope, topic_key, tags, session_id);
        let ghost saved_log = self.log();
        proof {
            if saved is Ok {
                assert(saved_log[old(self).log().len() as int] == saved_log.last());
            }
        }
        let mut link_error: Option<IgrisError> = None;
        if let Ok(obs) = &saved {
            if let Some(m) = mentions {
                if m.len() > 0 {
                    match self.record_mentions(obs.id, m, project, scope) {
                        Err(e) => {
                            link_error = Some(e);
                        },
                        Ok(v) => {
                            proof {
                                let n = choose|n: int| #[trigger] mentions_recorded(saved_log, self.log(), n, obs.id, entity_ids(v@));
                                assert(self.log()[old(self).log().len() as int] == saved_log[old(self).log().len() as int]);
                                assert(mentions_recorded(saved_log, self.log(), n, obs.id, entity_ids(v@)));
                                assert(saved_log == old(self).log().push(saved_log.last()));
                                assert(self.log().take(saved_log.len() as int) == saved_log);
                                assert(self.log()[old(self).log().len() as int] == self.log().take(saved_log.len() as int)[old(self).log().len() as int]);
                            }
                        },
                    }
                }
            }
        }
        (saved, link_error)
    }

    /// An entity's neighbors — the connecting live edge and the live entity
    /// at the other end — strongest edges first (most evidence, then most
    /// recently seen, then newest), from the best `limit` edges (all of them
    /// for a negative limit).
    pub fn entity_neighbors(&self, entity_id: i64, limit: i64) -> (r: DbResult<Vec<EntityNeighbor>>)
        ensures
            r matches Ok(v) ==> forall|k: int| 0 <= k < v@.len() ==> (#[trigger] v@[k]).entity.id
                == spec_other_end(v@[k].edge.src_entity_id, v@[k].edge.dst_entity_id, entity_id)
                && v@[k].entity.deleted_at is None,
            r matches Ok(v) ==> (limit >= 0 ==> v@.len() <= limit),
            r matches Err(e) ==> e.code == ErrorCode::DatabaseError,
            r matches Ok(v) ==> forall|k: int, m: int|
                0 <= k < m < v@.len() ==> !#[trigger] key_before(edge_key(v@[m].edge), edge_key(v@[k].edge)),
            r matches Ok(v) ==> exists|rows: Seq<SqlRow>, picked: Seq<usize>| #[trigger] neighbors_chosen(v@, rows, picked, entity_id, limit),
    {
        let rows = self.query(NEIGHBOR_EDGES, &[])?;
        let ghost rv = crate::db::rows_view(rows@);
        let mut cand: Vec<usize> = Vec::new();
        let mut keys: Vec<(i64, Vec<char>, i64)> = Vec::new();
        let mut i: usize = 0;
        while i < rows.len()
            invariant
                i <= rows@.len(),
                rv == crate::db::rows_view(rows@),
                cand@.len() == keys@.len(),
                cand@ == candidate_rows(rv.take(i as int), entity_id),
                forall|k: int| 0 <= k < cand@.len() ==> (#[trigger] cand@[k]) < i,
                forall|k: int| 0 <= k < keys@.len() ==> key_view(#[trigger] keys@[k]) == row_edge_key(rv[cand@[k] as int]),
            decreases rows.len() - i,
        {
            proof {
                assert(rv.take(i as int + 1).drop_last() =~= rv.take(i as int));
                assert(rv.take(i as int + 1).last() == rv[i as int]);
                assert(rv[i as int] == rows@[i as int]@);
            }
            let e = edge_from_row(&rows[i]);
            if e.deleted_at.is_none() && (e.src_entity_id == entity_id || e.dst_entity_id == entity_id) {
                cand.push(i);
                keys.push((e.evidence_count, crate::text::chars_of(e.last_seen.as_str()), e.id));
            }
            i += 1;
        }
        proof {
            assert(rv.take(rows@.len() as int) =~= rv);
        }
        let picked = best_positions(&keys, limit);
        let ghost ck = keys_view(keys@);
        proof {
            assert forall|k: int| 0 <= k < ck.len() implies #[trigger] ck[k] == row_edge_key(rv[cand@[k] as int]) by {
                assert(ck[k] == key_view(keys@[k]));
            }
        }
        let mut out: Vec<EntityNeighbor> = Vec::new();
        let ghost mut from: Seq<int> = Seq::empty();
        let mut p: usize = 0;
        while p < picked.len()
            invariant
                p <= picked@.len(),
                picks_best(picked@, ck, limit),
                ck.len() == cand@.len(),
                rv == crate::db::rows_view(rows@),
                cand@ == candidate_rows(rv, entity_id),
                forall|k: int| 0 <= k < cand@.len() ==> (#[trigger] cand@[k]) < rows@.len(),
                forall|k: int| 0 <= k < ck.len() ==> #[trigger] ck[k] == row_edge_key(rv[cand@[k] as int]),
                out@.len() == from.len(),
                out@.len() <= p,
                forall|k: int| 0 <= k < from.len() ==> 0 <= #[trigger] from[k] < p,
                forall|k: int, m: int| 0 <= k < m < from.len() ==> from[k] < from[m],
                forall|k: int| 0 <= k < out@.len() ==> edge_key((#[trigger] out@[k]).edge) == ck[picked@[from[k]] as int],
                forall|k: int| 0 <= k < out@.len() ==> (#[trigger] out@[k]).entity.id
                    == spec_other_end(out@[k].edge.src_entity_id, out@[k].edge.dst_entity_id, entity_id)
                    && out@[k].entity.deleted_at is None,
            decreases picked.len() - p,
        {
            let at = cand[picked[p]];
            let edge = edge_from_row(&rows[at]);
            proof {
                assert(rv[at as int] == rows@[at as int]@);
                assert(ck[picked@[p as int] as int] == row_edge_key(rv[at as int]));
            }
            let other = other_end(edge.src_entity_id, edge.dst_entity_id, entity_id);
            if let Ok(entity) = self.get_entity(other) {
                out.push(EntityNeighbor { edge, entity });
                proof {
                    from = from.push(p as int);
                }
            }
            p += 1;
        }
        proof {
            assert forall|k: int, m: int| 0 <= k < m < out@.len() implies !#[trigger] key_before(
                edge_key(out@[m].edge),
                edge_key(out@[k].edge),
            ) by {
                assert(from[k] < from[m]);
            }
            assert(ck =~= candidate_keys(rv, entity_id));
            assert(from.len() == out@.len() && (forall|k: int, m: int| 0 <= k < m < from.len() ==> from[k] < from[m])
                && (forall|k: int| 0 <= k < out@.len() ==> 0 <= from[k] < picked@.len() && edge_key((#[trigger] out@[k]).edge)
                == ck[picked@[from[k]] as int]));
            assert(neighbors_chosen(out@, rows@, picked@, entity_id, limit));
        }
        Ok(out)
    }

    /// The live observations that mention an entity, most recent first, at
    /// most `limit`.
    pub fn entity_timeline(&self, entity_id: i64, limit: i64) -> (r: DbResult<Vec<Observation>>)
        ensures
            r matches Ok(v) ==> forall|k: int| 0 <= k < v@.len() ==> (#[trigger] v@[k]).deleted_at is None,
            r matches Ok(v) ==> (limit >= 0 ==> v@.len() <= limit),
            r matches Err(e) ==> e.code == ErrorCode::DatabaseError,
    {
        let rows = self.query(
            "SELECT o.id, o.session_id, o.type, o.title, o.content, o.project, o.scope,
                    o.topic_key, o.tags, o.revision_count, o.duplicate_count,
                    o.created_at, o.updated_at, o.deleted_at
             FROM observations o
             JOIN mentions m ON m.observation_id = o.id
             WHERE m.entity_id = ?1 AND o.deleted_at IS NULL
             ORDER BY datetime(o.created_at) DESC, o.id DESC
             LIMIT ?2",
            &[SqlValue::Integer(entity_id), SqlValue::Integer(limit)],
        )?;
        Ok(Self::live_observations(&rows, limit))
    }

    /// Regenerates, stores and returns the entity's Compiled Truth from its
    /// mention count, top ten connections and five latest mentions.
    pub fn compile_entity_truth(&mut self, entity_id: i64) -> (r: DbResult<String>)
        ensures
            r matches Ok(t) ==> exists|e: Entity, n: i64, nb: Seq<EntityNeighbor>, rc: Seq<Observation>|
                e.id == entity_id && nb.len() <= 10 && rc.len() <= 5 && #[trigger] spec_compiled_truth(e, n, nb, rc)
                    == t@,
            r matches Err(e) ==> e.code == ErrorCode::NotFound || e.code == ErrorCode::DatabaseError,
            r matches Ok(t) ==> final(self).log() == old(self).log().push(final(self).log().last()) && truth_write(
                final(self).log().last(),
                entity_id,
                t@,
            ),
    {
        let entity = self.get_entity(entity_id)?;
        let mention_count = self.query_int(
            "SELECT count(*) FROM mentions WHERE entity_id = ?1",
            &[SqlValue::Integer(entity_id)],
        )?;
        let neighbors = self.entity_neighbors(entity_id, 10)?;
        let recent = self.entity_timeline(entity_id, 5)?;
        let truth = format_compiled_truth(&entity, mention_count, neighbors.as_slice(), recent.as_slice());
        let now = self.now_utc()?;
        let params = vec![SqlValue::Text(truth.clone()), SqlValue::Text(now), SqlValue::Integer(entity_id)];
        self.exec(SET_COMPILED_TRUTH, params.as_slice())?;
        Ok(truth)
    }

    /// A one-call brief: recompiles the truth, then bundles the entity, its
    /// top ten neighbors and its ten latest mentions.
    pub fn entity_brief(&mut self, entity_id: i64) -> (r: DbResult<EntityBrief>)
        ensures
            r matches Ok(b) ==> b.entity.id == entity_id && b.entity.deleted_at is None && b.neighbors@.len() <= 10
                && b.recent@.len() <= 10,
            r matches Err(e) ==> e.code == ErrorCode::NotFound || e.code == ErrorCode::DatabaseError,
            r is Ok ==> final(self).log() == old(self).log().push(final(self).log().last()) && exists|t: Seq<char>|
                #[trigger] truth_write(final(self).log().last(), entity_id, t),
    {
        let truth = self.compile_entity_truth(entity_id)?;
        proof {
            assert(truth_write(self.log().last(), entity_id, truth@));
        }
        let entity = self.get_entity(entity_id)?;
        let neighbors = self.entity_neighbors(entity_id, 10)?;
        let recent = self.entity_timeline(entity_id, 10)?;
        Ok(EntityBrief { entity, neighbors, recent })
    }

    /// Live entities with an alias containing the normalized `query`,
    /// optionally filtered by kind, project and scope; most salient, then
    /// most recently updated first, at most `limit`.
    pub fn search_entities(
        &self,
        query: &str,
        kind: Option<&str>,
        project: Option<&str>,
        scope: Option<&str>,
        limit: i64,
    ) -> (r: DbResult<Vec<Entity>>)
        ensures
            r matches Ok(v) ==> forall|k: int| 0 <= k < v@.len() ==> (#[trigger] v@[k]).deleted_at is None,
            r matches Err(e) ==> e.code == ErrorCode::DatabaseError,
    {
        let like = concat_str(concat_str("%", normalize_alias(query).as_str()).as_str(), "%");
        let rows = self.query(
            "SELECT DISTINCT e.id, e.kind, e.canonical_name, e.slug, e.tier, e.salience,
                    e.compiled_truth, e.compiled_at, e.project, e.scope,
                    e.created_at, e.updated_at, e.deleted_at
             FROM entities e
             JOIN entity_aliases a ON a.entity_id = e.id
             WHERE a.alias_normalized LIKE ?1
               AND e.deleted_at IS NULL
               AND (?2 IS NULL OR e.kind = ?2)
               AND (?3 IS NULL OR IFNULL(e.project, '') = IFNULL(?3, ''))
               AND (?4 IS NULL OR e.scope = ?4)
             ORDER BY e.salience DESC, datetime(e.updated_at) DESC, e.id DESC
             LIMIT ?5",
            &[SqlValue::Text(like), opt_text(kind), opt_text(project), opt_text(scope), SqlValue::Integer(limit)],
        )?;
        Ok(live_entities(&rows))
    }

    /// Live entities, most recently updated first, optionally filtered by
    /// kind, project and scope, at most `limit`.
    pub fn list_entities(
        &self,
        kind: Option<&str>,
        project: Option<&str>,
        scope: Option<&str>,
        limit: i64,
    ) -> (r: DbResult<Vec<Entity>>)
        ensures
            r matches Ok(v) ==> forall|k: int| 0 <= k < v@.len() ==> (#[trigger] v@[k]).deleted_at is None,
            r matches Err(e) ==> e.code == ErrorCode::DatabaseError,
    {
        let rows = self.query(
            "SELECT id, kind, canonical_name, slug, tier, salience, compiled_truth,
                    compiled_at, project, scope, created_at, updated_at, deleted_at
             FROM entities
             WHERE deleted_at IS NULL
               AND (?1 IS NULL OR kind = ?1)
               AND (?2 IS NULL OR IFNULL(project, '') = IFNULL(?2, ''))
               AND (?3 IS NULL OR scope = ?3)
             ORDER BY datetime(updated_at) DESC, id DESC
             LIMIT ?4",
            &[opt_text(kind), opt_text(project), opt_text(scope), SqlValue::Integer(limit)],
        )?;
        Ok(live_entities(&rows))
    }

    /// Soft-deletes an entity; `false` when it is missing or already deleted.
    pub fn delete_entity(&mut self, id: i64) -> (r: DbResult<bool>)
        ensures
            r matches Err(e) ==> e.code == ErrorCode::DatabaseError && final(self).log() == old(self).log(),
            r matches Ok(b) ==> stamped_once(old(self).log(), final(self).log(), SOFT_DELETE_ENTITY@, id) && b
                == (final(self).log().last().changed > 0),
    {
        let now = self.now_utc()?;
        let params = stamp_params(now, id);
        let affected = self.exec(SOFT_DELETE_ENTITY, params.as_slice())?;
        Ok(affected > 0)
    }

    /// Soft-deletes the live edges of type `relation` between two entities,
    /// in either direction; how many were removed.
    pub fn unlink_entities(&mut self, src_id: i64, dst_id: i64, relation: &str) -> (r: DbResult<i64>)
        ensures
            r matches Ok(n) ==> n >= 0,
            r matches Err(e) ==> e.code == ErrorCode::DatabaseError && final(self).log() == old(self).log(),
            r matches Ok(n) ==> {
                let w = final(self).log().last();
                &&& final(self).log() == old(self).log().push(w)
                &&& w.sql == UNLINK_EDGES@
                &&& w.params.len() == 4 && w.params[0] is Text && param_text(w.params[1], relation@)
                &&& param_int(w.params[2], src_id) && param_int(w.params[3], dst_id)
                &&& n == (if w.changed > i64::MAX { i64::MAX as int } else { w.changed as int })
            },
    {
        let now = self.now_utc()?;
        let params = vec![SqlValue::Text(now), text(relation), SqlValue::Integer(src_id), SqlValue::Integer(dst_id)];
        let affected = self.exec(UNLINK_EDGES, params.as_slice())?;
        Ok(if affected as u64 > i64::MAX as u64 { i64::MAX } else { affected as i64 })
    }

    /// Folds a duplicate entity into another: the source's aliases (and its
    /// name), mentions and edges move to the target — an edge that would
    /// join the target to itself is dropped — and the source is
    /// soft-deleted. The target keeps its identity.
    pub fn merge_entities(&mut self, source_id: i64, target_id: i64) -> (r: DbResult<Entity>)
        ensures
            source_id == target_id ==> (r matches Err(e) && e.code == ErrorCode::ValidationError),
            source_id != target_id ==> (r matches Err(e) ==> e.code == ErrorCode::NotFound || e.code
                == ErrorCode::DatabaseError),
            r matches Ok(e) ==> e.id == target_id && e.deleted_at is None,
            r matches Err(e) ==> (e.code == ErrorCode::NotFound ==> e.error@ == entity_not_found_message(source_id)
                || e.error@ == entity_not_found_message(target_id)),
            source_id == target_id ==> final(self).log() == old(self).log(),
            r matches Err(e) && e.code == ErrorCode::NotFound ==> final(self).log() == old(self).log(),
            r is Ok ==> final(self).log() == old(self).log() + final(self).log().skip(old(self).log().len() as int)
                && merge_writes(final(self).log().skip(old(self).log().len() as int), source_id, target_id),
            r is Ok ==> final(self).lookups().len() == old(self).lookups().len() + 1 && final(self).lookups().drop_last()
                == old(self).lookups() && final(self).lookups().last().sql == MERGE_EDGE_SCAN@ && merge_moves(
                final(self).log().skip(old(self).log().len() as int),
                final(self).lookups().last().rows,
                source_id,
                target_id,
            ),
    {
        if source_id == target_id {
            return Err(IgrisError::validation(String::from_str("cannot merge an entity into itself")));
        }
        let source_entity = self.get_entity(source_id)?;
        let target_entity = self.get_entity(target_id)?;
        let now = self.now_utc()?;
        let ghost start = self.log();
        let ids = vec![SqlValue::Integer(target_id), SqlValue::Integer(source_id)];
        self.exec(COPY_ALIASES, ids.as_slice())?;
        let ghost w1 = self.log().last();
        let ghost after_w1 = self.log();
        self.add_alias(target_id, source_entity.canonical_name.as_str(), "merged")?;
        let ghost alias = self.log().skip(after_w1.len() as int);
        proof {
            reveal_strlit("merged");
            assert(self.log() =~= after_w1 + alias);
        }
        let ghost after_alias = self.log();
        self.exec(COPY_MENTIONS, ids.as_slice())?;
        let ghost w2 = self.log().last();
        let source_only = vec![SqlValue::Integer(source_id)];
        self.exec(DROP_MENTIONS, source_only.as_slice())?;
        let ghost w3 = self.log().last();
        let ghost before_edges = self.log();
        proof {
            assert(before_edges =~= after_alias + seq![w2, w3]);
        }
        let ghost reads_before = self.lookups();
        let edge_rows = self.lookup_rows(MERGE_EDGE_SCAN, &[])?;
        let ghost scanned = self.lookups();
        proof {
            assert(scanned.last().rows == crate::db::rows_view(edge_rows@));
            assert(scanned.drop_last() =~= reads_before);
        }
        let ghost mut edge_ws: Seq<StoreWrite> = Seq::empty();
        let mut i: usize = 0;
        while i < edge_rows.len()
            invariant
                i <= edge_rows.len(),
                source_id != target_id,
                self.log() == before_edges + edge_ws,
                self.lookups() == scanned,
                forall|k: int| 0 <= k < edge_ws.len() ==> #[trigger] repointed_write(edge_ws[k], source_id, target_id),
                repoint_writes_ok(edge_ws, crate::db::rows_view(edge_rows@.take(i as int)), source_id, target_id),
            decreases edge_rows.len() - i,
        {
            let row = &edge_rows[i];
            proof {
                assert(crate::db::rows_view(edge_rows@.take(i as int + 1)).drop_last() =~= crate::db::rows_view(
                    edge_rows@.take(i as int),
                ));
                assert(crate::db::rows_view(edge_rows@.take(i as int + 1)).last() == row@);
            }
            let src = get_int(row, 0, 0);
            let dst = get_int(row, 1, 0);
            let live = get_opt_text(row, 7).is_none();
            if live && (src == source_id || dst == source_id) {
                if let Some(params) = repointed_params(row, source_id, target_id) {
                    self.exec(REINSERT_EDGE, params.as_slice())?;
                    proof {
                        let w = self.log().last();
                        let prev = edge_ws;
                        assert(spec_repointed_params(Some(w.params), row@, source_id, target_id));
                        assert(repointed_write(w, source_id, target_id));
                        edge_ws = edge_ws.push(w);
                        assert(edge_ws.drop_last() =~= prev);
                        assert(self.log() =~= before_edges + edge_ws);
                    }
                }
            }
            i += 1;
        }
        proof {
            assert(edge_rows@.take(edge_rows@.len() as int) =~= edge_rows@);
        }
        let stamp = stamp_params(now.clone(), source_id);
        self.exec(DROP_SOURCE_EDGES, stamp.as_slice())?;
        let ghost w4 = self.log().last();
        let stamp = stamp_params(now, source_id);
        self.exec(SOFT_DELETE_ENTITY_ROW, stamp.as_slice())?;
        let ghost w5 = self.log().last();
        proof {
            let ws = seq![w1] + alias + seq![w2, w3] + edge_ws + seq![w4, w5];
            assert(self.log() =~= start + ws);
            assert(self.log().skip(start.len() as int) =~= ws);
            assert(ws == seq![w1] + alias + seq![w2, w3] + edge_ws + seq![w4, w5]);
            assert(w1.sql == COPY_ALIASES@ && w1.params == seq![SqlValue::Integer(target_id), SqlValue::Integer(source_id)]);
            assert(alias.len() <= 1);
            assert(alias.len() == 1 ==> exists|a: Seq<char>| #[trigger] alias_write(alias[0], target_id, a, "merged"@));
            assert(w2.sql == COPY_MENTIONS@ && w2.params == seq![SqlValue::Integer(target_id), SqlValue::Integer(source_id)]);
            assert(w3.sql == DROP_MENTIONS@ && w3.params == seq![SqlValue::Integer(source_id)]);
            assert(forall|k: int| 0 <= k < edge_ws.len() ==> #[trigger] repointed_write(edge_ws[k], source_id, target_id));
            assert(w4.sql == DROP_SOURCE_EDGES@);
            assert(w5.sql == SOFT_DELETE_ENTITY_ROW@);
            lemma_merge_writes(ws, w1, alias, w2, w3, edge_ws, w4, w5, source_id, target_id);
            let a: int = 3 + alias.len() as int;
            assert(ws[a - 1] == w3);
            assert(ws.subrange(a, ws.len() - 2) =~= edge_ws);
            assert(merge_moves(ws, scanned.last().rows, source_id, target_id));
        }
        Ok(target_entity)
    }
}

/// Decodes every row as an entity, keeping the live ones, in order.
pub fn live_entities(rows: &Vec<SqlRow>) -> (r: Vec<Entity>)
    ensures
        r@.len() == live_rows(rows@, 12).len(),
        forall|k: int| 0 <= k < r@.len() ==> decodes_entity(#[trigger] r@[k], live_rows(rows@, 12)[k]@),
        forall|k: int| 0 <= k < r@.len() ==> (#[trigger] r@[k]).deleted_at is None,
        r@.len() <= rows@.len(),
{
    let ghost p = live_pred(12);
    let mut out: Vec<Entity> = Vec::new();
    let mut i: usize = 0;
    proof {
        assert(rows@.take(0) =~= Seq::<SqlRow>::empty());
        reveal(Seq::filter);
    }
    while i < rows.len()
        invariant
            i <= rows.len(),
            p == live_pred(12),
            out@.len() <= i,
            out@.len() == rows@.take(i as int).filter(p).len(),
            forall|k: int| 0 <= k < out@.len() ==> decodes_entity(#[trigger] out@[k], rows@.take(i as int).filter(p)[k]@),
            forall|k: int| 0 <= k < out@.len() ==> (#[trigger] out@[k]).deleted_at is None,
        decreases rows.len() - i,
    {
        proof {
            lemma_filter_take_step(rows@, p, i as int);
        }
        let e = entity_from_row(&rows[i]);
        if e.deleted_at.is_none() {
            out.push(e);
        }
        i += 1;
    }
    proof {
        assert(rows@.take(i as int) =~= rows@);
    }
    out
}

} // verus!
