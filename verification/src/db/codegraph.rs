use vstd::prelude::*;
use crate::codegraph::extractor::{ExtractedEdge, ExtractedSymbol};
use crate::errors::{ErrorCode, IgrisError};
use crate::models::{CodeEdge, CodeFile, CodeMap, CodeNeighbor, CodeNode, CodeSymbol};
use crate::sql::{param_int, param_text, cell_int, cell_opt_int, cell_text, cell_text_or_empty, get_int, get_opt_int, get_opt_text, get_text, opt_text, text, SqlRow, SqlValue};
use crate::text::{concat_str, decimal, str_eq, to_lowercase};
use crate::codegraph::paths::{shortest_walk, edge_walk, within, NodeKey};
use super::{StoreRead, lemma_filter_take_step, stamp_params, write_of, Database, DbResult, StoreWrite, NO_ROWS_MESSAGE};

verus! {

/// Decodes the code-file columns of a row: id, project, root_path,
/// relative_path, language, content_hash, indexed_at, deleted_at.
pub fn code_file_from_row(row: &SqlRow) -> (f: CodeFile)
    ensures
        f.id == crate::sql::cell_int(row@, 0, 0),
{
    CodeFile {
        id: get_int(row, 0, 0),
        project: get_text(row, 1),
        root_path: get_text(row, 2),
        relative_path: get_text(row, 3),
        language: get_text(row, 4),
        content_hash: get_text(row, 5),
        indexed_at: get_text(row, 6),
        deleted_at: get_opt_text(row, 7),
    }
}

/// Decodes the symbol columns of a row joined with its file: id, file_id,
/// kind, name, qualified_name, start_line, end_line, indexed_at,
/// deleted_at, relative_path, language.
pub fn code_symbol_from_row(row: &SqlRow) -> (s: CodeSymbol)
    ensures
        s.id == crate::sql::cell_int(row@, 0, 0),
{
    CodeSymbol {
        id: get_int(row, 0, 0),
        file_id: get_int(row, 1, 0),
        kind: get_text(row, 2),
        name: get_text(row, 3),
        qualified_name: get_text(row, 4),
        start_line: get_int(row, 5, 0),
        end_line: get_int(row, 6, 0),
        indexed_at: get_text(row, 7),
        deleted_at: get_opt_text(row, 8),
        relative_path: get_text(row, 9),
        language: get_text(row, 10),
    }
}

/// `e` is what the code-edge columns of `row` hold (see
/// `code_edge_from_row`); a missing or mistyped column reads as its default.
pub open spec fn decodes_code_edge(e: CodeEdge, row: Seq<SqlValue>) -> bool {
    &&& e.id == cell_int(row, 0, 0)
    &&& e.src_id == cell_int(row, 1, 0)
    &&& e.src_type@ == cell_text_or_empty(row, 2)
    &&& e.dst_id == cell_opt_int(row, 3)
    &&& super::opt_view(e.dst_type) == cell_text(row, 4)
    &&& e.dst_name@ == cell_text_or_empty(row, 5)
    &&& e.relation@ == cell_text_or_empty(row, 6)
    &&& e.resolution@ == cell_text_or_empty(row, 7)
    &&& e.external_boundary == (cell_int(row, 8, 0) != 0)
    &&& e.evidence_count == cell_int(row, 9, 1)
    &&& e.first_seen@ == cell_text_or_empty(row, 10)
    &&& e.last_seen@ == cell_text_or_empty(row, 11)
}

/// The edge rows that touch the node (`t`, `id`): as source, or as
/// resolved target.
pub open spec fn touch_pred(t: Seq<char>, id: i64) -> spec_fn(SqlRow) -> bool {
    |row: SqlRow|
        (cell_text_or_empty(row@, 2) == t && cell_int(row@, 1, 0) == id) || (cell_text(row@, 4) == Some(t)
            && cell_opt_int(row@, 3) == Some(id))
}

/// Decodes the code-edge columns of a row: id, src_id, src_type, dst_id,
/// dst_type, dst_name, relation, resolution, external_boundary,
/// evidence_count, first_seen, last_seen.
pub fn code_edge_from_row(row: &SqlRow) -> (e: CodeEdge)
    ensures
        decodes_code_edge(e, row@),
        e.id == crate::sql::cell_int(row@, 0, 0),
{
    CodeEdge {
        id: get_int(row, 0, 0),
        src_id: get_int(row, 1, 0),
        src_type: get_text(row, 2),
        dst_id: get_opt_int(row, 3),
        dst_type: get_opt_text(row, 4),
        dst_name: get_text(row, 5),
        relation: get_text(row, 6),
        resolution: get_text(row, 7),
        external_boundary: get_int(row, 8, 0) != 0,
        evidence_count: get_int(row, 9, 1),
        first_seen: get_text(row, 10),
        last_seen: get_text(row, 11),
    }
}

/// Drops the edges leaving the symbols of a file.
pub const DELETE_SYMBOL_EDGES: &'static str = "DELETE FROM code_edges WHERE src_type = 'symbol' AND src_id IN (SELECT id FROM code_symbols WHERE file_id = ?1)";

/// Drops the edges leaving a file itself.
pub const DELETE_FILE_EDGES: &'static str = "DELETE FROM code_edges WHERE src_type = 'file' AND src_id = ?1";

/// Drops the symbols of a file.
pub const DELETE_SYMBOLS: &'static str = "DELETE FROM code_symbols WHERE file_id = ?1";

/// Inserts an extracted symbol.
pub const INSERT_SYMBOL: &'static str = "INSERT INTO code_symbols (file_id, kind, name, qualified_name, start_line, end_line, indexed_at)
                 VALUES (?1, ?2, ?3, ?4, ?5, ?6, ?7)";

/// Inserts an extracted edge.
pub const INSERT_CODE_EDGE: &'static str = "INSERT INTO code_edges (src_id, src_type, dst_id, dst_type, dst_name, relation, resolution, external_boundary, evidence_count, first_seen, last_seen)
                 VALUES (?1, ?2, ?3, ?4, ?5, ?6, ?7, ?8, 1, ?9, ?9)";

/// `w` inserts the extracted symbol `s` of file `file_id`.
pub open spec fn symbol_write(w: StoreWrite, file_id: i64, s: ExtractedSymbol, now: Seq<char>) -> bool {
    w.sql == INSERT_SYMBOL@ && spec_symbol_params(w.params, file_id, s, now)
}

/// `w` inserts the extracted edge `e` of file `file_id`, its source taken
/// from the symbols recorded for the file and its target resolved by the
/// store (or left unresolved).
pub open spec fn edge_write(w: StoreWrite, file_id: i64, recorded: Seq<(String, i64)>, e: ExtractedEdge, now: Seq<char>) -> bool {
    w.sql == INSERT_CODE_EDGE@ && exists|resolved: Option<i64>| #[trigger] spec_edge_params(w.params, file_id, recorded, e, resolved, now)
}

/// `ws` replace the symbols and edges of file `file_id` (see
/// `replace_writes`), with `now` as the index time and `recorded` the
/// qualified names of the inserted symbols with their ids.
pub open spec fn replace_writes_with(
    ws: Seq<StoreWrite>,
    file_id: i64,
    symbols: Seq<ExtractedSymbol>,
    edges: Seq<ExtractedEdge>,
    now: Seq<char>,
    recorded: Seq<(String, i64)>,
) -> bool {
    &&& ws.len() == 3 + symbols.len() + edges.len()
    &&& ws[0].sql == DELETE_SYMBOL_EDGES@ && ws[0].params == seq![SqlValue::Integer(file_id)]
    &&& ws[1].sql == DELETE_FILE_EDGES@ && ws[1].params == seq![SqlValue::Integer(file_id)]
    &&& ws[2].sql == DELETE_SYMBOLS@ && ws[2].params == seq![SqlValue::Integer(file_id)]
    &&& recorded.len() == symbols.len()
    &&& forall|j: int| 0 <= j < symbols.len() ==> (#[trigger] recorded[j]).0@ == symbols[j].qualified_name@
    &&& forall|j: int| 0 <= j < symbols.len() ==> symbol_write(ws[3 + j], file_id, #[trigger] symbols[j], now)
    &&& forall|j: int| 0 <= j < edges.len() ==> edge_write(ws[3 + symbols.len() + j], file_id, recorded, #[trigger] edges[j], now)
}

/// `ws` replace the symbols and edges of file `file_id`, in order: its
/// symbols' edges, its own edges and its symbols dropped; then one insert
/// per extracted symbol, in order; then one insert per extracted edge, in
/// order, its source the symbol recorded for its source name.
pub open spec fn replace_writes(ws: Seq<StoreWrite>, file_id: i64, symbols: Seq<ExtractedSymbol>, edges: Seq<ExtractedEdge>) -> bool {
    exists|now: Seq<char>, recorded: Seq<(String, i64)>| #[trigger] replace_writes_with(ws, file_id, symbols, edges, now, recorded)
}

/// The project of a code file, from the rows of its lookup; `NotFound`
/// naming the file when there is none.
pub open spec fn spec_file_project(r: DbResult<String>, rows: Seq<SqlRow>, file_id: i64) -> bool {
    if rows.len() > 0 && cell_text(rows[0]@, 0) is Some {
        r matches Ok(p) && Some(p@) == cell_text(rows[0]@, 0)
    } else {
        r matches Err(e) && e.code == ErrorCode::NotFound && e.error@ == "code file "@ + spec_decimal_i64(file_id) + " not found"@
    }
}

/// Reads the project of a code file from the rows of its lookup.
pub fn file_project(rows: &Vec<SqlRow>, file_id: i64) -> (r: DbResult<String>)
    ensures
        spec_file_project(r, rows@, file_id),
{
    let project = if rows.len() > 0 { get_opt_text(&rows[0], 0) } else { None };
    match project {
        Some(p) => Ok(p),
        None => {
            let head = concat_str("code file ", decimal_i64(file_id).as_str());
            Err(IgrisError::not_found(concat_str(head.as_str(), " not found")))
        },
    }
}

/// A write of `sql` whose parameters are a time stamp and an integer id.
pub open spec fn stamp_write(w: StoreWrite, sql: Seq<char>) -> bool {
    w.sql == sql && w.params.len() == 2 && w.params[0] is Text && w.params[1] is Integer
}

/// A count as an `i64`, saturated at its maximum.
pub open spec fn capped_count(n: int) -> int {
    if n > i64::MAX { i64::MAX as int } else { n }
}

/// Records a new hash and index time for a code file.
pub const UPDATE_FILE_HASH: &'static str = "UPDATE code_files SET content_hash = ?1, indexed_at = ?2 WHERE id = ?3";

/// Soft-deletes a code file.
pub const SOFT_DELETE_FILE: &'static str = "UPDATE code_files SET deleted_at = ?1 WHERE id = ?2";

/// Updates an indexed file's hash, language and index time, and revives it.
pub const UPDATE_CODE_FILE: &'static str = "UPDATE code_files SET content_hash = ?1, indexed_at = ?2, language = ?3, deleted_at = NULL WHERE id = ?4";

/// Inserts an indexed file.
pub const INSERT_CODE_FILE: &'static str = "INSERT INTO code_files (project, root_path, relative_path, language, content_hash, indexed_at) VALUES (?1, ?2, ?3, ?4, ?5, ?6)";

/// `w` records the file at `relative_path` of (`project`, `root_path`) with
/// `language` and `content_hash`: an update of its existing row, or an
/// insert.
pub open spec fn code_file_write(
    w: StoreWrite,
    project: Seq<char>,
    root_path: Seq<char>,
    relative_path: Seq<char>,
    language: Seq<char>,
    content_hash: Seq<char>,
) -> bool {
    ||| w.sql == UPDATE_CODE_FILE@ && w.params.len() == 4 && param_text(w.params[0], content_hash) && w.params[1] is Text
        && param_text(w.params[2], language) && w.params[3] is Integer
    ||| w.sql == INSERT_CODE_FILE@ && w.params.len() == 6 && param_text(w.params[0], project) && param_text(
        w.params[1],
        root_path,
    ) && param_text(w.params[2], relative_path) && param_text(w.params[3], language) && param_text(
        w.params[4],
        content_hash,
    ) && w.params[5] is Text
}

/// Finds the stored content hash of a live indexed file.
pub const GET_FILE_HASH: &'static str = "SELECT content_hash FROM code_files WHERE project = ?1 AND root_path = ?2 AND relative_path = ?3 AND deleted_at IS NULL";

/// `rd` is the hash lookup of the file at `relative_path` of (`project`,
/// `root_path`).
pub open spec fn hash_lookup(rd: StoreRead, project: Seq<char>, root_path: Seq<char>, relative_path: Seq<char>) -> bool {
    &&& rd.sql == GET_FILE_HASH@ && rd.params.len() == 3
    &&& param_text(rd.params[0], project) && param_text(rd.params[1], root_path) && param_text(rd.params[2], relative_path)
}

/// The stored hash an answer to the hash lookup gives: the text in the
/// first column of its first row, if any.
pub open spec fn spec_stored_hash(rows: Seq<Seq<SqlValue>>) -> Option<Seq<char>> {
    if rows.len() == 0 {
        None
    } else {
        cell_text(rows[0], 0)
    }
}

/// The kind of a node type in a path search from a node of type
/// `start_type`: 0 for a file, 1 for a symbol, 2 for the start's own other
/// type, 3 for any other type (never a node).
pub open spec fn kind_of(t: Seq<char>, start_type: Seq<char>) -> i64 {
    if t == "file"@ {
        0
    } else if t == "symbol"@ {
        1
    } else if t == start_type {
        2
    } else {
        3
    }
}

/// The node of type `t` and id `id` in a path search from a node of type
/// `start_type`.
pub open spec fn node_of(t: Seq<char>, id: i64, start_type: Seq<char>) -> NodeKey {
    (kind_of(t, start_type), id)
}

/// The (type, id) key a searched node stands for.
pub open spec fn key_text(n: NodeKey, start_type: Seq<char>) -> (Seq<char>, i64) {
    (if n.0 == 0 { "file"@ } else if n.0 == 1 { "symbol"@ } else { start_type }, n.1)
}

/// A node a path may pass through: the start, an existing file or an
/// existing symbol.
pub open spec fn passable_node(n: NodeKey, files: Seq<i64>, symbols: Seq<i64>, start: NodeKey) -> bool {
    n == start || (n.0 == 0 && files.contains(n.1)) || (n.0 == 1 && symbols.contains(n.1))
}

/// A node of kind file, symbol or the start itself.
pub open spec fn passable_key(n: NodeKey, start: NodeKey) -> bool {
    n == start || n.0 == 0 || n.0 == 1
}

/// The nodes an edge row joins: its source and its resolved target, if
/// it has one.
pub open spec fn row_link(row: Seq<SqlValue>, start_type: Seq<char>) -> Option<(NodeKey, NodeKey)> {
    match (cell_text(row, 4), cell_opt_int(row, 3)) {
        (Some(d), Some(did)) => Some(
            (node_of(cell_text_or_empty(row, 2), cell_int(row, 1, 0), start_type), node_of(d, did, start_type)),
        ),
        _ => None,
    }
}

/// The links a path search walks: the edges of `rows` joining two nodes
/// it may pass through, in row order.
pub open spec fn code_links(
    rows: Seq<Seq<SqlValue>>,
    files: Seq<i64>,
    symbols: Seq<i64>,
    start_type: Seq<char>,
    start: NodeKey,
) -> Seq<(NodeKey, NodeKey)>
    decreases rows.len(),
{
    if rows.len() == 0 {
        Seq::empty()
    } else {
        let prev = code_links(rows.drop_last(), files, symbols, start_type, start);
        match row_link(rows.last(), start_type) {
            Some((a, b)) => if passable_node(a, files, symbols, start) && passable_node(b, files, symbols, start) {
                prev.push((a, b))
            } else {
                prev
            },
            None => prev,
        }
    }
}

/// The graph a path search from (`from_type`, `from_id`) walks over the
/// edge rows `rows` and the existing files and symbols.
pub open spec fn code_graph(rows: Seq<SqlRow>, files: Seq<i64>, symbols: Seq<i64>, from_type: Seq<char>, from_id: i64) -> Seq<
    (NodeKey, NodeKey),
> {
    code_links(super::rows_view(rows), files, symbols, from_type, node_of(from_type, from_id, from_type))
}

/// Over the graph of `rows`, `files` and `symbols`: with `None`, no walk of
/// at most `max_hops` edges joins the two nodes; with `Some(n)`, one of
/// `n` edges does and none shorter.
pub open spec fn path_graph_answer(
    rows: Seq<SqlRow>,
    files: Seq<i64>,
    symbols: Seq<i64>,
    from_type: Seq<char>,
    from_id: i64,
    to_type: Seq<char>,
    to_id: i64,
    max_hops: i64,
    found: Option<nat>,
) -> bool {
    let g = code_graph(rows, files, symbols, from_type, from_id);
    let a = node_of(from_type, from_id, from_type);
    let b = node_of(to_type, to_id, from_type);
    match found {
        None => !within(g, a, b, max_hops as int),
        Some(n) => within(g, a, b, n as int) && !within(g, a, b, n - 1),
    }
}

/// A path search is complete and finds shortest chains: whenever a
/// sequence of nodes leads from the start to the end with at most
/// `max_hops` steps, each step along some edge of the searched graph in
/// either direction, the search answers a chain, of no more steps.
pub proof fn law_code_path_complete(
    rows: Seq<SqlRow>,
    files: Seq<i64>,
    symbols: Seq<i64>,
    from_type: Seq<char>,
    from_id: i64,
    to_type: Seq<char>,
    to_id: i64,
    max_hops: i64,
    found: Option<nat>,
    w: Seq<NodeKey>,
)
    requires
        path_graph_answer(rows, files, symbols, from_type, from_id, to_type, to_id, max_hops, found),
        1 <= w.len() <= max_hops + 1,
        w[0] == node_of(from_type, from_id, from_type),
        w.last() == node_of(to_type, to_id, from_type),
        forall|k: int|
            0 <= k < w.len() - 1 ==> exists|e: int|
                0 <= e < code_graph(rows, files, symbols, from_type, from_id).len() && (code_graph(
                    rows,
                    files,
                    symbols,
                    from_type,
                    from_id,
                )[e] == (w[k], #[trigger] w[k + 1]) || code_graph(rows, files, symbols, from_type, from_id)[e] == (
                    w[k + 1],
                    w[k],
                )),
    ensures
        found matches Some(n) && n <= w.len() - 1,
{
    let g = code_graph(rows, files, symbols, from_type, from_id);
    assert forall|k: int| 0 <= k < w.len() - 1 implies #[trigger] crate::codegraph::paths::linked(g, w[k], w[k + 1]) by {
        let e = choose|e: int| 0 <= e < g.len() && (g[e] == (w[k], #[trigger] w[k + 1]) || g[e] == (w[k + 1], w[k]));
    }
    assert(crate::codegraph::paths::is_node_walk(g, w));
    let a = node_of(from_type, from_id, from_type);
    let b = node_of(to_type, to_id, from_type);
    assert(within(g, a, b, max_hops as int));
    match found {
        Some(n) => {
            if n > w.len() - 1 {
                assert(within(g, a, b, n - 1));
            }
        },
        None => {},
    }
}

/// A node of kind file, symbol or the start's type stands for its type.
proof fn lemma_kind_type(t: Seq<char>, start_type: Seq<char>)
    ensures
        kind_of(t, start_type) <= 2 ==> key_text((kind_of(t, start_type), 0), start_type).0 == t,
{
    reveal_strlit("file");
    reveal_strlit("symbol");
}

/// Every link of `links` joins nodes of kind file, symbol, or the start.
pub open spec fn links_passable(links: Seq<(NodeKey, NodeKey)>, start: NodeKey) -> bool {
    forall|q: int| 0 <= q < links.len() ==> passable_link(#[trigger] links[q], start)
}

/// Both ends of `l` are nodes of kind file, symbol, or the start.
pub open spec fn passable_link(l: (NodeKey, NodeKey), start: NodeKey) -> bool {
    passable_key(l.0, start) && passable_key(l.1, start)
}

/// Every link joins nodes of kind file, symbol, or the start.
proof fn lemma_links_passable(
    rows: Seq<Seq<SqlValue>>,
    files: Seq<i64>,
    symbols: Seq<i64>,
    start_type: Seq<char>,
    start: NodeKey,
)
    ensures
        links_passable(code_links(rows, files, symbols, start_type, start), start),
    decreases rows.len(),
{
    if rows.len() > 0 {
        lemma_links_passable(rows.drop_last(), files, symbols, start_type, start);
        let prev = code_links(rows.drop_last(), files, symbols, start_type, start);
        let cur = code_links(rows, files, symbols, start_type, start);
        assert(links_passable(prev, start));
        match row_link(rows.last(), start_type) {
            Some((a, b)) => {
                if passable_node(a, files, symbols, start) && passable_node(b, files, symbols, start) {
                    assert(cur == prev.push((a, b)));
                    assert forall|q: int| 0 <= q < cur.len() implies passable_link(#[trigger] cur[q], start) by {
                        if q < prev.len() {
                            assert(cur[q] == prev[q]);
                        } else {
                            assert(cur[q] == prev.push((a, b))[q]);
                            assert(cur[q] == (a, b));
                            assert(passable_key(a, start));
                            assert(passable_key(b, start));
                        }
                    }
                } else {
                    assert(cur == prev);
                }
            },
            None => {
                assert(cur == prev);
            },
        }
    } else {
        assert(code_links(rows, files, symbols, start_type, start).len() == 0);
    }
}

/// The kind of a node type (see `kind_of`).
fn kind_code(t: &str, start_type: &str) -> (r: i64)
    ensures
        r == kind_of(t@, start_type@),
{
    proof {
        reveal_strlit("file");
        reveal_strlit("symbol");
    }
    if str_eq(t, "file") {
        0
    } else if str_eq(t, "symbol") {
        1
    } else if str_eq(t, start_type) {
        2
    } else {
        3
    }
}

/// The type a searched node stands for (see `key_text`).
fn kind_text(kind: i64, start_type: &str) -> (r: String)
    ensures
        r@ == key_text((kind, 0), start_type@).0,
{
    if kind == 0 {
        String::from_str("file")
    } else if kind == 1 {
        String::from_str("symbol")
    } else {
        String::from_str(start_type)
    }
}

/// Whether a path may pass through a node (see `passable_node`).
fn passable(n: NodeKey, files: &Vec<i64>, symbols: &Vec<i64>, start: NodeKey) -> (r: bool)
    ensures
        r == passable_node(n, files@, symbols@, start),
{
    if n.0 == start.0 && n.1 == start.1 {
        return true;
    }
    if n.0 == 0 {
        return contains_i64(files, n.1);
    }
    if n.0 == 1 {
        return contains_i64(symbols, n.1);
    }
    false
}

/// The integer in the first column of each row.
fn first_ints(rows: &Vec<SqlRow>) -> (r: Vec<i64>)
    ensures
        r@.len() == rows@.len(),
{
    let mut out: Vec<i64> = Vec::new();
    let mut i: usize = 0;
    while i < rows.len()
        invariant
            i <= rows@.len(),
            out@.len() == i,
        decreases rows.len() - i,
    {
        out.push(get_int(&rows[i], 0, 0));
        i += 1;
    }
    out
}

/// The (type, id) key of a code node.
pub open spec fn node_key(n: CodeNode) -> (Seq<char>, i64) {
    match n {
        CodeNode::File(f) => ("file"@, f.id),
        CodeNode::Symbol(s) => ("symbol"@, s.id),
    }
}

/// The (type, id) key of a code node (exec).
pub fn node_key_of(n: &CodeNode) -> (r: (String, i64))
    ensures
        (r.0@, r.1) == node_key(*n),
{
    match n {
        CodeNode::File(f) => (String::from_str("file"), f.id),
        CodeNode::Symbol(s) => (String::from_str("symbol"), s.id),
    }
}

/// Whether `e` has the node (`t`, `id`) as its source or its resolved target.
pub open spec fn touches(e: CodeEdge, t: Seq<char>, id: i64) -> bool {
    (e.src_type@ == t && e.src_id == id) || (e.dst_type matches Some(d) && d@ == t && e.dst_id == Some(id))
}

/// The node at the other end of `e` from the node (`t`, `id`): its
/// resolved target when `e` starts there, else its source.
pub open spec fn other_end_key(e: CodeEdge, t: Seq<char>, id: i64) -> Option<(Seq<char>, i64)> {
    if e.src_id == id && e.src_type@ == t {
        match (e.dst_type, e.dst_id) {
            (Some(d), Some(did)) => Some((d@, did)),
            _ => None,
        }
    } else {
        Some((e.src_type@, e.src_id))
    }
}

/// `n` is one step from the node (`t`, `id`): its edge touches that node
/// and its node, when known, is the other end of the edge.
pub open spec fn steps_from(n: CodeNeighbor, t: Seq<char>, id: i64) -> bool {
    &&& touches(n.edge, t, id)
    &&& (n.node matches Some(x) ==> other_end_key(n.edge, t, id) == Some(node_key(x)))
}

/// Whether `e` touches the node (exec).
fn edge_touches(e: &CodeEdge, t: &str, id: i64) -> (r: bool)
    ensures
        r == touches(*e, t@, id),
{
    if e.src_id == id && str_eq(e.src_type.as_str(), t) {
        return true;
    }
    match (&e.dst_type, e.dst_id) {
        (Some(d), Some(did)) => did == id && str_eq(d.as_str(), t),
        _ => false,
    }
}

/// Whether `v` holds `x`.
pub fn contains_i64(v: &Vec<i64>, x: i64) -> (r: bool)
    ensures
        r == v@.contains(x),
{
    let mut i: usize = 0;
    while i < v.len()
        invariant
            i <= v.len(),
            forall|j: int| 0 <= j < i ==> v@[j] != x,
        decreases v.len() - i,
    {
        if v[i] == x {
            return true;
        }
        i += 1;
    }
    false
}

/// Whether `v` holds a string equal to `s`.
pub fn contains_str(v: &[String], s: &str) -> (r: bool)
    ensures
        r == exists|j: int| 0 <= j < v@.len() && (#[trigger] v@[j])@ == s@,
{
    let mut i: usize = 0;
    while i < v.len()
        invariant
            i <= v.len(),
            forall|j: int| 0 <= j < i ==> (#[trigger] v@[j])@ != s@,
        decreases v.len() - i,
    {
        if str_eq(v[i].as_str(), s) {
            return true;
        }
        i += 1;
    }
    false
}

/// Whether the node key list holds (`t`, `id`).
fn contains_key(keys: &Vec<(String, i64)>, t: &str, id: i64) -> (r: bool)
    ensures
        r == exists|j: int| 0 <= j < keys@.len() && (#[trigger] keys@[j]).0@ == t@ && keys@[j].1 == id,
{
    let mut i: usize = 0;
    while i < keys.len()
        invariant
            i <= keys.len(),
            forall|j: int| 0 <= j < i ==> !((#[trigger] keys@[j]).0@ == t@ && keys@[j].1 == id),
        decreases keys.len() - i,
    {
        if keys[i].1 == id && str_eq(keys[i].0.as_str(), t) {
            return true;
        }
        i += 1;
    }
    false
}

/// The symbol id recorded for a qualified name (the last one recorded wins).
pub open spec fn recorded_id(map: Seq<(String, i64)>, qn: Seq<char>) -> Option<i64>
    decreases map.len(),
{
    if map.len() == 0 {
        None
    } else if map.last().0@ == qn {
        Some(map.last().1)
    } else {
        recorded_id(map.drop_last(), qn)
    }
}

/// Looks up the symbol id recorded for a qualified name.
pub fn lookup_recorded(map: &Vec<(String, i64)>, qn: &str) -> (r: Option<i64>)
    ensures
        r == recorded_id(map@, qn@),
{
    let mut i: usize = map.len();
    assert(map@.take(i as int) =~= map@);
    while i > 0
        invariant
            i <= map.len(),
            recorded_id(map@, qn@) == recorded_id(map@.take(i as int), qn@),
        decreases i,
    {
        let k: usize = i - 1;
        proof {
            assert(map@.take(i as int).drop_last() =~= map@.take(k as int));
            assert(map@.take(i as int).last() == map@[k as int]);
        }
        if str_eq(map[k].0.as_str(), qn) {
            return Some(map[k].1);
        }
        i = k;
    }
    None
}

/// An import whose target resolves to nothing in the project leaves the
/// project; an unresolved call proves nothing; an extractor's own verdict
/// is kept.
pub open spec fn spec_external_boundary(relation: Seq<char>, extracted: bool, resolved: bool) -> bool {
    extracted || (relation == "imports"@ && !resolved)
}

/// The parameters of the insert of an extracted symbol of file `file_id`.
pub open spec fn spec_symbol_params(p: Seq<SqlValue>, file_id: i64, s: ExtractedSymbol, now: Seq<char>) -> bool {
    &&& p.len() == 7
    &&& param_int(p[0], file_id)
    &&& param_text(p[1], s.kind@)
    &&& param_text(p[2], s.name@)
    &&& param_text(p[3], s.qualified_name@)
    &&& param_int(p[4], s.start_line)
    &&& param_int(p[5], s.end_line)
    &&& param_text(p[6], now)
}

/// Builds the parameters of the insert of an extracted symbol.
pub fn symbol_params(file_id: i64, s: &ExtractedSymbol, now: &str) -> (r: Vec<SqlValue>)
    ensures
        spec_symbol_params(r@, file_id, *s, now@),
{
    vec![
        SqlValue::Integer(file_id),
        SqlValue::Text(s.kind.clone()),
        SqlValue::Text(s.name.clone()),
        SqlValue::Text(s.qualified_name.clone()),
        SqlValue::Integer(s.start_line),
        SqlValue::Integer(s.end_line),
        text(now),
    ]
}

/// The source of a stored edge: the symbol recorded for its source name
/// (the file when none was recorded), or the file itself.
pub open spec fn spec_edge_source(file_id: i64, recorded: Seq<(String, i64)>, e: ExtractedEdge) -> (i64, Seq<char>) {
    match e.src_qualified_name {
        Some(qn) => (
            match recorded_id(recorded, qn@) {
                Some(id) => id,
                None => file_id,
            },
            "symbol"@,
        ),
        None => (file_id, "file"@),
    }
}

/// The parameters of the insert of an extracted edge of file `file_id`:
/// its source (see `spec_edge_source`), its target resolved to a symbol
/// of the project when `resolved` names one (else no target id or type),
/// the target name, relation and resolution, whether it crosses the
/// project boundary, and `now` as first and last seen.
pub open spec fn spec_edge_params(
    p: Seq<SqlValue>,
    file_id: i64,
    recorded: Seq<(String, i64)>,
    e: ExtractedEdge,
    resolved: Option<i64>,
    now: Seq<char>,
) -> bool {
    &&& p.len() == 9
    &&& param_int(p[0], spec_edge_source(file_id, recorded, e).0)
    &&& param_text(p[1], spec_edge_source(file_id, recorded, e).1)
    &&& (match resolved {
        Some(id) => param_int(p[2], id) && param_text(p[3], "symbol"@),
        None => p[2] is Null && p[3] is Null,
    })
    &&& param_text(p[4], e.dst_name@)
    &&& param_text(p[5], e.relation@)
    &&& param_text(p[6], e.resolution@)
    &&& param_int(p[7], if spec_external_boundary(e.relation@, e.external_boundary, resolved is Some) { 1 } else { 0 })
    &&& param_text(p[8], now)
}

/// Builds the parameters of the insert of an extracted edge.
pub fn edge_params(
    file_id: i64,
    recorded: &Vec<(String, i64)>,
    e: &ExtractedEdge,
    resolved: Option<i64>,
    now: &str,
) -> (r: Vec<SqlValue>)
    ensures
        spec_edge_params(r@, file_id, recorded@, *e, resolved, now@),
{
    let (src_id, src_type) = match &e.src_qualified_name {
        Some(qn) => (
            match lookup_recorded(recorded, qn.as_str()) {
                Some(id) => id,
                None => file_id,
            },
            "symbol",
        ),
        None => (file_id, "file"),
    };
    let (dst_id, dst_type) = match resolved {
        Some(id) => (SqlValue::Integer(id), text("symbol")),
        None => (SqlValue::Null, SqlValue::Null),
    };
    let boundary = external_boundary(e.relation.as_str(), e.external_boundary, resolved.is_some());
    proof {
        reveal_strlit("symbol");
        reveal_strlit("file");
    }
    vec![
        SqlValue::Integer(src_id),
        text(src_type),
        dst_id,
        dst_type,
        SqlValue::Text(e.dst_name.clone()),
        SqlValue::Text(e.relation.clone()),
        SqlValue::Text(e.resolution.clone()),
        SqlValue::Integer(if boundary { 1 } else { 0 }),
        text(now),
    ]
}

/// Decides whether a stored edge crosses the project boundary.
pub fn external_boundary(relation: &str, extracted: bool, resolved: bool) -> (r: bool)
    ensures
        r == spec_external_boundary(relation@, extracted, resolved),
{
    extracted || (!resolved && str_eq(relation, "imports"))
}

/// Whether an edge's evidence counts are sorted strongest first.
pub open spec fn strongest_first(v: Seq<CodeNeighbor>) -> bool {
    forall|i: int, j: int| 0 <= i < j < v.len() ==> v[i].edge.evidence_count >= v[j].edge.evidence_count
}

/// Sorts neighbors by evidence count, strongest first, keeping the order
/// of equally strong ones.
pub fn sort_by_evidence(v: Vec<CodeNeighbor>) -> (r: Vec<CodeNeighbor>)
    ensures
        r@.len() == v@.len(),
        strongest_first(r@),
{
    let mut v = v;
    let mut out: Vec<CodeNeighbor> = Vec::new();
    let ghost total = v@.len();
    while v.len() > 0
        invariant
            out@.len() + v@.len() == total,
            strongest_first(out@),
        decreases v.len(),
    {
        let x = v.remove(0);
        let mut pos: usize = out.len();
        while pos > 0 && out[pos - 1].edge.evidence_count < x.edge.evidence_count
            invariant
                pos <= out@.len(),
                strongest_first(out@),
                forall|k: int| pos <= k < out@.len() ==> out@[k].edge.evidence_count < x.edge.evidence_count,
            decreases pos,
        {
            pos -= 1;
        }
        proof {
            if pos > 0 {
                assert(out@[pos - 1].edge.evidence_count >= x.edge.evidence_count);
            }
        }
        let ghost before = out@;
        out.insert(pos, x);
        proof {
            assert forall|i: int, j: int| 0 <= i < j < out@.len() implies out@[i].edge.evidence_count
                >= out@[j].edge.evidence_count by {
                if j < pos {
                    assert(out@[i] == before[i] && out@[j] == before[j]);
                } else if j == pos {
                    assert(out@[i] == before[i]);
                    assert(before[i].edge.evidence_count >= before[pos - 1].edge.evidence_count);
                } else if i == pos {
                    assert(out@[j] == before[j - 1]);
                } else if i < pos {
                    assert(out@[i] == before[i] && out@[j] == before[j - 1]);
                } else {
                    assert(out@[i] == before[i - 1] && out@[j] == before[j - 1]);
                }
            }
        }
    }
    out
}

/// All ids of the edges in a neighbor list are distinct.
pub open spec fn distinct_edges(v: Seq<CodeNeighbor>) -> bool {
    forall|i: int, j: int| 0 <= i < j < v.len() ==> v[i].edge.id != v[j].edge.id
}

impl Database {
    /// Creates the `code_files` row for (project, root_path, relative_path),
    /// or updates its hash, language and index time (and revives it) if one
    /// exists.
    pub fn upsert_code_file(
        &mut self,
        project: &str,
        root_path: &str,
        relative_path: &str,
        language: &str,
        content_hash: &str,
    ) -> (r: DbResult<CodeFile>)
        ensures
            r matches Err(e) ==> e.code == ErrorCode::DatabaseError,
            r is Ok ==> final(self).log() == old(self).log().push(final(self).log().last()) && code_file_write(
                final(self).log().last(),
                project@,
                root_path@,
                relative_path@,
                language@,
                content_hash@,
            ),
            final(self).lookups() == old(self).lookups(),
    {
        let now = self.now_utc()?;
        let existing = self.query_opt_int(
            "SELECT id FROM code_files WHERE project = ?1 AND root_path = ?2 AND relative_path = ?3",
            &[text(project), text(root_path), text(relative_path)],
        )?;
        let id = match existing {
            Some(id) => {
                let params = vec![text(content_hash), SqlValue::Text(now), text(language), SqlValue::Integer(id)];
                self.exec(UPDATE_CODE_FILE, params.as_slice())?;
                id
            },
            None => {
                let params = vec![text(project), text(root_path), text(relative_path), text(language), text(content_hash), SqlValue::Text(now)];
                self.exec(INSERT_CODE_FILE, params.as_slice())?;
                self.last_insert_rowid()
            },
        };
        let rows = self.query(
            "SELECT id, project, root_path, relative_path, language, content_hash, indexed_at, deleted_at
             FROM code_files WHERE id = ?1",
            &[SqlValue::Integer(id)],
        )?;
        if rows.len() == 0 {
            return Err(IgrisError::database(String::from_str(NO_ROWS_MESSAGE)));
        }
        Ok(code_file_from_row(&rows[0]))
    }

    /// The stored content hash of a live indexed file, `None` when the file
    /// was never indexed or is soft-deleted.
    pub fn get_code_file_hash(&mut self, project: &str, root_path: &str, relative_path: &str) -> (r: DbResult<Option<String>>)
        ensures
            r matches Err(e) ==> e.code == ErrorCode::DatabaseError,
            final(self).log() == old(self).log(),
            final(self).lookups().len() == old(self).lookups().len() + 1,
            final(self).lookups().drop_last() == old(self).lookups(),
            hash_lookup(final(self).lookups().last(), project@, root_path@, relative_path@),
            r matches Ok(h) ==> super::opt_view(h) == spec_stored_hash(final(self).lookups().last().rows),
            r is Err ==> final(self).lookups().last().rows.len() == 0,
    {
        let params = vec![text(project), text(root_path), text(relative_path)];
        let rows = self.lookup_rows(GET_FILE_HASH, params.as_slice())?;
        proof {
            assert(self.lookups().drop_last() =~= old(self).lookups());
        }
        if rows.len() == 0 {
            Ok(None)
        } else {
            proof {
                assert(self.lookups().last().rows[0] == rows@[0]@);
            }
            Ok(get_opt_text(&rows[0], 0))
        }
    }

    /// Records the hash and index time of a file once its symbols and
    /// edges are up to date.
    pub fn update_code_file_hash(&mut self, file_id: i64, content_hash: &str) -> (r: DbResult<()>)
        ensures
            r matches Err(e) ==> e.code == ErrorCode::DatabaseError && final(self).log() == old(self).log(),
            r is Ok ==> {
                let w = final(self).log().last();
                &&& final(self).log() == old(self).log().push(w)
                &&& w.sql == UPDATE_FILE_HASH@
                &&& w.params.len() == 3 && param_text(w.params[0], content_hash@) && w.params[1] is Text
                &&& param_int(w.params[2], file_id)
            },
    {
        let now = self.now_utc()?;
        let params = vec![text(content_hash), SqlValue::Text(now), SqlValue::Integer(file_id)];
        self.exec(UPDATE_FILE_HASH, params.as_slice())?;
        Ok(())
    }

    /// Replaces every symbol and edge of `file_id` with a fresh extraction,
    /// atomically. Each edge's target name is resolved against the live
    /// symbols of the same project; an import that resolves to nothing is
    /// marked as leaving the project.
    pub fn replace_symbols_and_edges_for_file(
        &mut self,
        file_id: i64,
        symbols: &[ExtractedSymbol],
        edges: &[ExtractedEdge],
    ) -> (r: DbResult<()>)
        ensures
            r matches Err(e) ==> e.code == ErrorCode::DatabaseError || e.code == ErrorCode::NotFound,
            r is Ok ==> {
                let n = final(self).log().len();
                let o = old(self).log().len();
                &&& n >= o + 2
                &&& final(self).log().take(o as int) == old(self).log()
                &&& final(self).log()[o as int] == write_of("BEGIN"@, Seq::empty(), 0)
                &&& final(self).log()[n - 1] == write_of("COMMIT"@, Seq::empty(), 0)
                &&& replace_writes(final(self).log().subrange(o + 1 as int, n - 1 as int), file_id, symbols@, edges@)
            },
            final(self).lookups() == old(self).lookups(),
    {
        self.batch("BEGIN")?;
        let ghost after_begin = self.log();
        let result = self.replace_in_transaction(file_id, symbols, edges);
        match result {
            Ok(()) => {
                let ghost ws = self.log().skip(after_begin.len() as int);
                self.batch("COMMIT")?;
                proof {
                    let o = old(self).log().len();
                    assert(self.log().take(o as int) =~= old(self).log());
                    assert(self.log().subrange(o + 1 as int, self.log().len() - 1 as int) =~= ws);
                }
                Ok(())
            },
            Err(e) => {
                let _ = self.batch("ROLLBACK");
                Err(e)
            },
        }
    }

    fn replace_in_transaction(
        &mut self,
        file_id: i64,
        symbols: &[ExtractedSymbol],
        edges: &[ExtractedEdge],
    ) -> (r: DbResult<()>)
        ensures
            r matches Err(e) ==> e.code == ErrorCode::DatabaseError || e.code == ErrorCode::NotFound,
            r is Ok ==> final(self).log() == old(self).log() + final(self).log().skip(old(self).log().len() as int)
                && replace_writes(final(self).log().skip(old(self).log().len() as int), file_id, symbols@, edges@),
            final(self).lookups() == old(self).lookups(),
    {
        let rows = self.query("SELECT project FROM code_files WHERE id = ?1", &[SqlValue::Integer(file_id)])?;
        let project = file_project(&rows, file_id)?;
        let ghost start = self.log();
        let file_only = vec![SqlValue::Integer(file_id)];
        self.exec(DELETE_SYMBOL_EDGES, file_only.as_slice())?;
        let ghost w0 = self.log().last();
        self.exec(DELETE_FILE_EDGES, file_only.as_slice())?;
        let ghost w1 = self.log().last();
        self.exec(DELETE_SYMBOLS, file_only.as_slice())?;
        let ghost w2 = self.log().last();
        let ghost base = self.log();
        proof {
            assert(base =~= start + seq![w0, w1, w2]);
        }

        let now = self.now_utc()?;
        let mut recorded: Vec<(String, i64)> = Vec::new();
        let ghost mut sym_ws: Seq<StoreWrite> = Seq::empty();
        let mut i: usize = 0;
        while i < symbols.len()
            invariant
                i <= symbols.len(),
                self.log() == base + sym_ws,
                self.lookups() == old(self).lookups(),
                sym_ws.len() == i,
                recorded@.len() == i,
                forall|j: int| 0 <= j < i ==> symbol_write(sym_ws[j], file_id, #[trigger] symbols@[j], now@),
                forall|j: int| 0 <= j < i ==> (#[trigger] recorded@[j]).0@ == symbols@[j].qualified_name@,
            decreases symbols.len() - i,
        {
            let s = &symbols[i];
            let params = symbol_params(file_id, s, now.as_str());
            self.exec(INSERT_SYMBOL, params.as_slice())?;
            proof {
                sym_ws = sym_ws.push(self.log().last());
                assert(self.log() =~= base + sym_ws);
            }
            recorded.push((s.qualified_name.clone(), self.last_insert_rowid()));
            i += 1;
        }

        let ghost mid = self.log();
        let ghost mut edge_ws: Seq<StoreWrite> = Seq::empty();
        let mut k: usize = 0;
        while k < edges.len()
            invariant
                k <= edges.len(),
                self.log() == mid + edge_ws,
                self.lookups() == old(self).lookups(),
                edge_ws.len() == k,
                forall|j: int| 0 <= j < k ==> edge_write(edge_ws[j], file_id, recorded@, #[trigger] edges@[j], now@),
            decreases edges.len() - k,
        {
            let e = &edges[k];
            let resolved = self.query_opt_int(
                "SELECT s.id FROM code_symbols s
                 JOIN code_files f ON f.id = s.file_id
                 WHERE f.project = ?1 AND s.qualified_name = ?2 AND s.deleted_at IS NULL",
                &[SqlValue::Text(project.clone()), SqlValue::Text(e.dst_name.clone())],
            )?;
            let params = edge_params(file_id, &recorded, e, resolved, now.as_str());
            self.exec(INSERT_CODE_EDGE, params.as_slice())?;
            proof {
                let w = self.log().last();
                assert(spec_edge_params(w.params, file_id, recorded@, edges@[k as int], resolved, now@));
                assert(edge_write(w, file_id, recorded@, edges@[k as int], now@));
                edge_ws = edge_ws.push(w);
                assert(self.log() =~= mid + edge_ws);
            }
            k += 1;
        }
        proof {
            let ws = seq![w0, w1, w2] + sym_ws + edge_ws;
            assert(self.log() =~= start + ws);
            assert(self.log().skip(start.len() as int) =~= ws);
            assert forall|j: int| 0 <= j < symbols@.len() implies symbol_write(ws[3 + j], file_id, #[trigger] symbols@[j], now@) by {
                assert(ws[3 + j] == sym_ws[j]);
            }
            assert forall|j: int| 0 <= j < edges@.len() implies edge_write(
                ws[3 + symbols@.len() + j],
                file_id,
                recorded@,
                #[trigger] edges@[j],
                now@,
            ) by {
                assert(ws[3 + symbols@.len() + j] == edge_ws[j]);
            }
            assert(ws.len() == 3 + symbols@.len() + edges@.len());
            assert(ws[0].sql == DELETE_SYMBOL_EDGES@);
            assert(ws[0].params == seq![SqlValue::Integer(file_id)]);
            assert(recorded@.len() == symbols@.len());
            assert(replace_writes_with(ws, file_id, symbols@, edges@, now@, recorded@));
        }
        Ok(())
    }

    /// Soft-deletes every live file under (project, root_path) whose
    /// relative path is not among `seen_relative_paths`; how many were
    /// marked.
    pub fn soft_delete_missing_code_files(
        &mut self,
        project: &str,
        root_path: &str,
        seen_relative_paths: &[String],
    ) -> (r: DbResult<i64>)
        ensures
            r matches Ok(n) ==> n >= 0,
            r matches Err(e) ==> e.code == ErrorCode::DatabaseError,
            r matches Ok(n) ==> final(self).log().len() >= old(self).log().len() && final(self).log().take(
                old(self).log().len() as int,
            ) == old(self).log() && n == capped_count(final(self).log().len() - old(self).log().len()) && forall|k: int|
                old(self).log().len() <= k < final(self).log().len() ==> stamp_write(#[trigger] final(self).log()[k], SOFT_DELETE_FILE@),
            final(self).lookups() == old(self).lookups(),
    {
        let rows = self.query(
            "SELECT id, relative_path FROM code_files WHERE project = ?1 AND root_path = ?2 AND deleted_at IS NULL",
            &[text(project), text(root_path)],
        )?;
        let now = self.now_utc()?;
        let mut deleted: i64 = 0;
        let ghost start = self.log();
        let mut i: usize = 0;
        while i < rows.len()
            invariant
                i <= rows.len() <= usize::MAX,
                0 <= deleted <= i,
                start == old(self).log(),
                self.lookups() == old(self).lookups(),
                self.log().len() >= start.len(),
                deleted == capped_count(self.log().len() - start.len()),
                self.log().take(start.len() as int) == start,
                forall|k: int| start.len() <= k < self.log().len() ==> stamp_write(#[trigger] self.log()[k], SOFT_DELETE_FILE@),
            decreases rows.len() - i,
        {
            let id = get_int(&rows[i], 0, 0);
            let path = get_text(&rows[i], 1);
            if !contains_str(seen_relative_paths, path.as_str()) {
                let params = stamp_params(now.clone(), id);
                let ghost before = self.log();
                self.exec(SOFT_DELETE_FILE, params.as_slice())?;
                proof {
                    assert(self.log().take(start.len() as int) =~= before.take(start.len() as int));
                }
                if deleted < i64::MAX {
                    deleted += 1;
                }
            }
            i += 1;
        }
        Ok(deleted)
    }

    /// Live symbols whose name contains `query` (case-insensitive),
    /// optionally filtered by kind, file language and project; most
    /// recently indexed first, at most `limit`.
    pub fn search_code_nodes(
        &self,
        query: &str,
        kind: Option<&str>,
        language: Option<&str>,
        project: Option<&str>,
        limit: i64,
    ) -> (r: DbResult<Vec<CodeNode>>)
        ensures
            r matches Ok(v) ==> forall|k: int| 0 <= k < v@.len() ==> (#[trigger] v@[k]) is Symbol,
            r matches Err(e) ==> e.code == ErrorCode::DatabaseError,
    {
        let lowered = to_lowercase(query);
        let like = concat_str(concat_str("%", lowered.as_str()).as_str(), "%");
        let rows = self.query(
            "SELECT s.id, s.file_id, s.kind, s.name, s.qualified_name, s.start_line, s.end_line,
                    s.indexed_at, s.deleted_at, f.relative_path, f.language
             FROM code_symbols s
             JOIN code_files f ON f.id = s.file_id
             WHERE lower(s.name) LIKE ?1 AND s.deleted_at IS NULL AND f.deleted_at IS NULL
               AND (?2 IS NULL OR s.kind = ?2)
               AND (?3 IS NULL OR f.language = ?3)
               AND (?4 IS NULL OR f.project = ?4)
             ORDER BY s.indexed_at DESC
             LIMIT ?5",
            &[SqlValue::Text(like), opt_text(kind), opt_text(language), opt_text(project), SqlValue::Integer(limit)],
        )?;
        let mut out: Vec<CodeNode> = Vec::new();
        let mut i: usize = 0;
        while i < rows.len()
            invariant
                i <= rows.len(),
                forall|k: int| 0 <= k < out@.len() ==> (#[trigger] out@[k]) is Symbol,
            decreases rows.len() - i,
        {
            out.push(CodeNode::Symbol(code_symbol_from_row(&rows[i])));
            i += 1;
        }
        Ok(out)
    }

    /// The node a (type, id) key names, if it exists (`None` for an
    /// unknown type or a lookup failure).
    fn lookup_node(&self, t: &str, id: i64) -> (r: Option<CodeNode>)
        ensures
            r matches Some(n) ==> node_key(n) == (t@, id),
            t@ != "symbol"@ && t@ != "file"@ ==> r is None,
    {
        if str_eq(t, "symbol") {
            match self.query(
                "SELECT s.id, s.file_id, s.kind, s.name, s.qualified_name, s.start_line, s.end_line,
                        s.indexed_at, s.deleted_at, f.relative_path, f.language
                 FROM code_symbols s JOIN code_files f ON f.id = s.file_id WHERE s.id = ?1",
                &[SqlValue::Integer(id)],
            ) {
                Ok(rows) => {
                    if rows.len() > 0 {
                        let s = code_symbol_from_row(&rows[0]);
                        if s.id == id {
                            return Some(CodeNode::Symbol(s));
                        }
                    }
                    None
                },
                Err(_) => None,
            }
        } else if str_eq(t, "file") {
            match self.query(
                "SELECT id, project, root_path, relative_path, language, content_hash, indexed_at, deleted_at
                 FROM code_files WHERE id = ?1",
                &[SqlValue::Integer(id)],
            ) {
                Ok(rows) => {
                    if rows.len() > 0 {
                        let f = code_file_from_row(&rows[0]);
                        if f.id == id {
                            return Some(CodeNode::File(f));
                        }
                    }
                    None
                },
                Err(_) => None,
            }
        } else {
            None
        }
    }

    /// The directly connected neighbors of a node: its outgoing edges
    /// (`out`), incoming resolved edges (`in`) or both, optionally of one
    /// relation, each with the node on the other end.
    pub fn one_hop(&self, node_type: &str, node_id: i64, direction: &str, relation: Option<&str>) -> (r: DbResult<Vec<CodeNeighbor>>)
        ensures
            r matches Ok(v) ==> forall|k: int| 0 <= k < v@.len() ==> touches((#[trigger] v@[k]).edge, node_type@, node_id),
            r matches Ok(v) ==> forall|k: int| 0 <= k < v@.len() ==> steps_from(#[trigger] v@[k], node_type@, node_id),
            r matches Err(e) ==> e.code == ErrorCode::DatabaseError,
    {
        let want_out = str_eq(direction, "out") || str_eq(direction, "both");
        let want_in = str_eq(direction, "in") || str_eq(direction, "both");
        let mut edges: Vec<CodeEdge> = Vec::new();
        if want_out {
            let rows = self.query(
                "SELECT id, src_id, src_type, dst_id, dst_type, dst_name, relation, resolution, external_boundary,
                        evidence_count, first_seen, last_seen
                 FROM code_edges WHERE src_type = ?1 AND src_id = ?2 AND (?3 IS NULL OR relation = ?3)",
                &[text(node_type), SqlValue::Integer(node_id), opt_text(relation)],
            )?;
            self.collect_touching(&rows, node_type, node_id, &mut edges);
        }
        if want_in {
            let rows = self.query(
                "SELECT id, src_id, src_type, dst_id, dst_type, dst_name, relation, resolution, external_boundary,
                        evidence_count, first_seen, last_seen
                 FROM code_edges WHERE dst_type = ?1 AND dst_id = ?2 AND (?3 IS NULL OR relation = ?3)",
                &[text(node_type), SqlValue::Integer(node_id), opt_text(relation)],
            )?;
            self.collect_touching(&rows, node_type, node_id, &mut edges);
        }
        let mut rest = super::reversed(edges);
        let mut out: Vec<CodeNeighbor> = Vec::new();
        while rest.len() > 0
            invariant
                forall|k: int| 0 <= k < rest@.len() ==> touches((#[trigger] rest@[k]), node_type@, node_id),
                forall|k: int| 0 <= k < out@.len() ==> touches((#[trigger] out@[k]).edge, node_type@, node_id),
                forall|k: int| 0 <= k < out@.len() ==> steps_from(#[trigger] out@[k], node_type@, node_id),
            decreases rest.len(),
        {
            let edge = rest.pop().unwrap();
            let other: Option<(String, i64)> = if edge.src_id == node_id && str_eq(edge.src_type.as_str(), node_type) {
                match (&edge.dst_type, edge.dst_id) {
                    (Some(t), Some(id)) => Some((t.clone(), id)),
                    _ => None,
                }
            } else {
                Some((edge.src_type.clone(), edge.src_id))
            };
            let node = match other {
                Some((t, id)) => self.lookup_node(t.as_str(), id),
                None => None,
            };
            out.push(CodeNeighbor { edge, node });
        }
        Ok(out)
    }

    /// Appends to `edges`, in row order, the decoded edge of every row that
    /// touches the node (`node_type`, `node_id`); the others are skipped.
    fn collect_touching(&self, rows: &Vec<SqlRow>, node_type: &str, node_id: i64, edges: &mut Vec<CodeEdge>)
        requires
            forall|k: int| 0 <= k < old(edges)@.len() ==> touches((#[trigger] old(edges)@[k]), node_type@, node_id),
        ensures
            final(edges)@.len() == old(edges)@.len() + rows@.filter(touch_pred(node_type@, node_id)).len(),
            forall|k: int| 0 <= k < old(edges)@.len() ==> final(edges)@[k] == old(edges)@[k],
            forall|k: int|
                0 <= k < rows@.filter(touch_pred(node_type@, node_id)).len() ==> decodes_code_edge(
                    #[trigger] final(edges)@[old(edges)@.len() + k],
                    rows@.filter(touch_pred(node_type@, node_id))[k]@,
                ),
            forall|k: int| 0 <= k < final(edges)@.len() ==> touches((#[trigger] final(edges)@[k]), node_type@, node_id),
    {
        let ghost p = touch_pred(node_type@, node_id);
        let ghost base = edges@;
        let mut i: usize = 0;
        proof {
            assert(rows@.take(0) =~= Seq::<SqlRow>::empty());
            reveal(Seq::filter);
        }
        while i < rows.len()
            invariant
                i <= rows.len(),
                p == touch_pred(node_type@, node_id),
                edges@.len() == base.len() + rows@.take(i as int).filter(p).len(),
                forall|k: int| 0 <= k < base.len() ==> edges@[k] == base[k],
                forall|k: int|
                    0 <= k < rows@.take(i as int).filter(p).len() ==> decodes_code_edge(
                        #[trigger] edges@[base.len() + k],
                        rows@.take(i as int).filter(p)[k]@,
                    ),
                forall|k: int| 0 <= k < edges@.len() ==> touches((#[trigger] edges@[k]), node_type@, node_id),
            decreases rows.len() - i,
        {
            proof {
                lemma_filter_take_step(rows@, p, i as int);
            }
            let e = code_edge_from_row(&rows[i]);
            if edge_touches(&e, node_type, node_id) {
                edges.push(e);
            }
            proof {
                assert(touches(e, node_type@, node_id) == p(rows@[i as int]));
            }
            i += 1;
        }
        proof {
            assert(rows@.take(i as int) =~= rows@);
        }
    }

    /// The neighbors of a node up to `hops` steps away (at least one),
    /// walking outward hop by hop from the newly reached nodes; every edge
    /// is returned once, in the order it is first reached.
    pub fn code_neighbors(
        &self,
        node_type: &str,
        node_id: i64,
        hops: i64,
        direction: &str,
        relation: Option<&str>,
    ) -> (r: DbResult<Vec<CodeNeighbor>>)
        ensures
            hops < 1 ==> (r matches Err(e) && e.code == ErrorCode::ValidationError && e.error@
                == "hops must be at least 1, got "@ + spec_decimal_i64(hops)),
            hops >= 1 ==> (r matches Err(e) ==> e.code == ErrorCode::DatabaseError),
            r matches Ok(v) ==> distinct_edges(v@),
            r matches Ok(v) ==> neighbors_found_within(v@, node_type@, node_id, hops as int),
    {
        if hops < 1 {
            return Err(IgrisError::validation(concat_str("hops must be at least 1, got ", decimal_i64(hops).as_str())));
        }
        let mut result: Vec<CodeNeighbor> = Vec::new();
        let mut seen_edges: Vec<i64> = Vec::new();
        let mut visited: Vec<(String, i64)> = Vec::new();
        visited.push((String::from_str(node_type), node_id));
        let mut frontier: Vec<(String, i64)> = Vec::new();
        frontier.push((String::from_str(node_type), node_id));
        let mut hop: i64 = 0;
        let ghost mut depths: Seq<int> = Seq::empty();
        while hop < hops && frontier.len() > 0
            invariant
                0 <= hop <= hops,
                hops >= 1,
                distinct_edges(result@),
                result@.len() == seen_edges@.len(),
                forall|k: int| 0 <= k < result@.len() ==> (#[trigger] result@[k]).edge.id == seen_edges@[k],
                found_within(result@, depths, (node_type@, node_id), hops as int),
                forall|k: int| 0 <= k < frontier@.len() ==> key_at(result@, depths, (node_type@, node_id), (
                    (#[trigger] frontier@[k]).0@,
                    frontier@[k].1,
                ), hop as int),
            decreases hops - hop,
        {
            let mut next: Vec<(String, i64)> = Vec::new();
            let mut f: usize = 0;
            while f < frontier.len()
                invariant
                    f <= frontier.len(),
                    hops >= 1,
                    distinct_edges(result@),
                    result@.len() == seen_edges@.len(),
                    forall|k: int| 0 <= k < result@.len() ==> (#[trigger] result@[k]).edge.id == seen_edges@[k],
                    found_within(result@, depths, (node_type@, node_id), hops as int),
                    0 <= hop < hops,
                    forall|k: int| 0 <= k < frontier@.len() ==> key_at(result@, depths, (node_type@, node_id), (
                        (#[trigger] frontier@[k]).0@,
                        frontier@[k].1,
                    ), hop as int),
                    forall|k: int| 0 <= k < next@.len() ==> key_at(result@, depths, (node_type@, node_id), (
                        (#[trigger] next@[k]).0@,
                        next@[k].1,
                    ), hop + 1),
                decreases frontier.len() - f,
            {
                let hop_neighbors = self.one_hop(frontier[f].0.as_str(), frontier[f].1, direction, relation)?;
                let ghost cur = (frontier@[f as int].0@, frontier@[f as int].1);
                let mut rest = super::reversed(hop_neighbors);
                while rest.len() > 0
                    invariant
                        hops >= 1,
                        distinct_edges(result@),
                        result@.len() == seen_edges@.len(),
                        forall|k: int| 0 <= k < result@.len() ==> (#[trigger] result@[k]).edge.id == seen_edges@[k],
                        found_within(result@, depths, (node_type@, node_id), hops as int),
                        0 <= hop < hops,
                        key_at(result@, depths, (node_type@, node_id), cur, hop as int),
                        forall|k: int| 0 <= k < rest@.len() ==> steps_from(#[trigger] rest@[k], cur.0, cur.1),
                        forall|k: int| 0 <= k < frontier@.len() ==> key_at(result@, depths, (node_type@, node_id), (
                            (#[trigger] frontier@[k]).0@,
                            frontier@[k].1,
                        ), hop as int),
                        forall|k: int| 0 <= k < next@.len() ==> key_at(result@, depths, (node_type@, node_id), (
                            (#[trigger] next@[k]).0@,
                            next@[k].1,
                        ), hop + 1),
                    decreases rest.len(),
                {
                    let ghost rest_before = rest@;
                    let n = rest.pop().unwrap();
                    proof {
                        assert(n == rest_before[rest_before.len() - 1]);
                        assert forall|k: int| 0 <= k < rest@.len() implies steps_from(#[trigger] rest@[k], cur.0, cur.1) by {
                            assert(rest@[k] == rest_before[k]);
                        }
                    }
                    let ghost before = result@;
                    let ghost depths_before = depths;
                    let ghost next_before = next@;
                    if !contains_i64(&seen_edges, n.edge.id) {
                        if let Some(node) = &n.node {
                            let key = node_key_of(node);
                            if !contains_key(&visited, key.0.as_str(), key.1) {
                                visited.push((key.0.clone(), key.1));
                                next.push(key);
                            }
                        }
                        proof {
                            assert forall|k: int| 0 <= k < result@.len() implies result@[k].edge.id != n.edge.id by {
                                assert(seen_edges@[k] == result@[k].edge.id);
                            }
                        }
                        seen_edges.push(n.edge.id);
                        let ghost pushed = n;
                        result.push(n);
                        proof {
                            lemma_found_push(before, depths_before, (node_type@, node_id), hops as int, cur, hop as int, pushed);
                            depths = depths_before.push(hop + 1);
                            assert(result@ =~= before.push(pushed));
                            if pushed.node is Some {
                                assert(key_at(result@, depths, (node_type@, node_id), node_key(pushed.node->0), hop + 1));
                            }
                            assert forall|k: int| 0 <= k < next@.len() implies key_at(
                                result@,
                                depths,
                                (node_type@, node_id),
                                ((#[trigger] next@[k]).0@, next@[k].1),
                                hop + 1,
                            ) by {
                                if k < next_before.len() {
                                    assert(next@[k] == next_before[k]);
                                    assert(key_at(before, depths_before, (node_type@, node_id), (next_before[k].0@, next_before[k].1), hop + 1));
                                }
                            }
                            assert forall|k: int| 0 <= k < frontier@.len() implies key_at(
                                result@,
                                depths,
                                (node_type@, node_id),
                                ((#[trigger] frontier@[k]).0@, frontier@[k].1),
                                hop as int,
                            ) by {
                                assert(key_at(before, depths_before, (node_type@, node_id), (frontier@[k].0@, frontier@[k].1), hop as int));
                            }
                            assert(key_at(before, depths_before, (node_type@, node_id), cur, hop as int));
                        }
                    }
                }
                f += 1;
            }
            frontier = next;
            hop += 1;
        }
        let ghost final_depths = depths;
        proof {
            assert(found_within(result@, final_depths, (node_type@, node_id), hops as int));
            assert(neighbors_found_within(result@, node_type@, node_id, hops as int));
        }
        Ok(result)
    }

    /// A shortest chain of edges (breadth first, each edge walked in either
    /// direction) from one node to another, at most `max_hops` edges long;
    /// the empty chain when the two are the same node, `None` when no chain
    /// fits within the cap. Every node after the start must exist.
    pub fn code_path(
        &self,
        from_type: &str,
        from_id: i64,
        to_type: &str,
        to_id: i64,
        max_hops: i64,
    ) -> (r: DbResult<Option<Vec<CodeNeighbor>>>)
        ensures
            (from_type@ == to_type@ && from_id == to_id) ==> (r matches Ok(Some(p)) && p@.len() == 0),
            r matches Ok(Some(p)) ==> p@.len() <= (if max_hops < 0 { 0 } else { max_hops }),
            r matches Ok(Some(p)) ==> (p@.len() > 0 ==> (p@.last().node matches Some(n) && node_key(n) == (to_type@, to_id))),
            r matches Ok(Some(p)) ==> is_walk(p@, (from_type@, from_id)),
            r matches Err(e) ==> e.code == ErrorCode::DatabaseError,
            r matches Ok(None) ==> exists|rows: Seq<SqlRow>, files: Seq<i64>, symbols: Seq<i64>| #[trigger] path_graph_answer(
                rows,
                files,
                symbols,
                from_type@,
                from_id,
                to_type@,
                to_id,
                max_hops,
                None,
            ),
            r matches Ok(Some(p)) ==> (from_type@ == to_type@ && from_id == to_id) || exists|
                rows: Seq<SqlRow>,
                files: Seq<i64>,
                symbols: Seq<i64>,
            | #[trigger] path_graph_answer(rows, files, symbols, from_type@, from_id, to_type@, to_id, max_hops, Some(p@.len())),
    {
        if from_id == to_id && str_eq(from_type, to_type) {
            return Ok(Some(Vec::new()));
        }
        let rows = self.query(
            "SELECT id, src_id, src_type, dst_id, dst_type, dst_name, relation, resolution, external_boundary,
                    evidence_count, first_seen, last_seen
             FROM code_edges",
            &[],
        )?;
        let file_rows = self.query("SELECT id FROM code_files", &[])?;
        let symbol_rows = self.query("SELECT s.id FROM code_symbols s JOIN code_files f ON f.id = s.file_id", &[])?;
        let files = first_ints(&file_rows);
        let symbols = first_ints(&symbol_rows);
        let start: NodeKey = (kind_code(from_type, from_type), from_id);
        let target: NodeKey = (kind_code(to_type, from_type), to_id);
        let ghost rv = super::rows_view(rows@);
        let mut es: Vec<(NodeKey, NodeKey)> = Vec::new();
        let mut es_rows: Vec<usize> = Vec::new();
        let mut i: usize = 0;
        while i < rows.len()
            invariant
                i <= rows@.len(),
                rv == super::rows_view(rows@),
                start == node_of(from_type@, from_id, from_type@),
                es@ == code_links(rv.take(i as int), files@, symbols@, from_type@, start),
                es_rows@.len() == es@.len(),
                forall|k: int|
                    0 <= k < es@.len() ==> (#[trigger] es_rows@[k]) < i && row_link(rv[es_rows@[k] as int], from_type@) == Some(
                        es@[k],
                    ),
            decreases rows.len() - i,
        {
            proof {
                assert(rv.take(i as int + 1).drop_last() =~= rv.take(i as int));
                assert(rv.take(i as int + 1).last() == rv[i as int]);
                assert(rv[i as int] == rows@[i as int]@);
            }
            let row = &rows[i];
            let dst_type = get_opt_text(row, 4);
            let dst_id = get_opt_int(row, 3);
            if let (Some(d), Some(did)) = (dst_type, dst_id) {
                let src_type = get_text(row, 2);
                let a: NodeKey = (kind_code(src_type.as_str(), from_type), get_int(row, 1, 0));
                let b: NodeKey = (kind_code(d.as_str(), from_type), did);
                if passable(a, &files, &symbols, start) && passable(b, &files, &symbols, start) {
                    es.push((a, b));
                    es_rows.push(i);
                }
            }
            i += 1;
        }
        proof {
            assert(rv.take(rows@.len() as int) =~= rv);
        }
        let found = shortest_walk(&es, start, target, max_hops);
        let ghost graph = es@;
        proof {
            assert(graph == code_graph(rows@, files@, symbols@, from_type@, from_id));
        }
        match found {
            None => {
                proof {
                    assert(path_graph_answer(rows@, files@, symbols@, from_type@, from_id, to_type@, to_id, max_hops, None));
                }
                Ok(None)
            },
            Some((p, ns)) => {
                let ghost from_key = (from_type@, from_id);
                let mut out: Vec<CodeNeighbor> = Vec::new();
                let mut k: usize = 0;
                proof {
                    lemma_links_passable(rv, files@, symbols@, from_type@, start);
                    lemma_kind_type(from_type@, from_type@);
                }
                while k < p.len()
                    invariant
                        k <= p@.len(),
                        edge_walk(es@, p@, ns@),
                        ns@[0] == start,
                        ns@.last() == target,
                        start == node_of(from_type@, from_id, from_type@),
                        target == node_of(to_type@, to_id, from_type@),
                        rv == super::rows_view(rows@),
                        es_rows@.len() == es@.len(),
                        forall|q: int|
                            0 <= q < es@.len() ==> (#[trigger] es_rows@[q]) < rows@.len() && row_link(rv[es_rows@[q] as int], from_type@)
                                == Some(es@[q]),
                        links_passable(es@, start),
                        out@.len() == k,
                        !(from_type@ == to_type@ && from_id == to_id),
                        p@.len() <= (if max_hops < 0 { 0 } else { max_hops as int }),
                        !within(es@, start, target, p@.len() - 1),
                        es@ == code_graph(rows@, files@, symbols@, from_type@, from_id),
                        is_walk(out@, (from_type@, from_id)),
                        walk_node(out@, (from_type@, from_id), k as int) == key_text(ns@[k as int], from_type@),
                    decreases p.len() - k,
                {
                    let pos = p[k];
                    let at = es_rows[pos];
                    let row = &rows[at];
                    let edge = code_edge_from_row(row);
                    let next = ns[k + 1];
                    let t = kind_text(next.0, from_type);
                    let node = match self.lookup_node(t.as_str(), next.1) {
                        Some(n) => n,
                        None => {
                            return Err(IgrisError::database(String::from_str(NO_ROWS_MESSAGE)));
                        },
                    };
                    let ghost cur = key_text(ns@[k as int], from_type@);
                    let step = CodeNeighbor { edge, node: Some(node) };
                    proof {
                        assert(rv[at as int] == rows@[at as int]@);
                        assert(p@[k as int] < es@.len());
                        let pair = es@[pos as int];
                        assert(row_link(rv[at as int], from_type@) == Some(pair));
                        assert(pair == (ns@[k as int], ns@[k + 1]) || pair == (ns@[k + 1], ns@[k as int]));
                        assert(passable_link(es@[pos as int], start));
                        lemma_kind_type(cell_text_or_empty(rv[at as int], 2), from_type@);
                        lemma_kind_type(cell_text(rv[at as int], 4)->Some_0, from_type@);
                        assert(node_key(node) == key_text(ns@[k + 1], from_type@));
                        assert(steps_from(step, cur.0, cur.1));
                        lemma_walk_extend(out@, (from_type@, from_id), k as int, cur, step);
                    }
                    out.push(step);
                    k += 1;
                }
                proof {
                    crate::codegraph::paths::lemma_edge_walk_is_walk(es@, p@, ns@);
                    assert(within(es@, start, target, p@.len() as int));
                    assert(path_graph_answer(
                        rows@,
                        files@,
                        symbols@,
                        from_type@,
                        from_id,
                        to_type@,
                        to_id,
                        max_hops,
                        Some(out@.len()),
                    ));
                    if out@.len() > 0 {
                        let last = out@.len() - 1;
                        assert(ns@.last() == ns@[out@.len() as int]);
                        assert(p@[last] < es@.len());
                        assert(passable_link(es@[p@[last] as int], start));
                        assert(passable_key(target, start));
                        lemma_kind_type(to_type@, from_type@);
                        lemma_kind_type(from_type@, from_type@);
                        assert(key_text(target, from_type@) == (to_type@, to_id));
                        assert(walk_node(out@, (from_type@, from_id), out@.len() as int) == node_key(out@[last].node->0));
                    }
                }
                Ok(Some(out))
            },
        }
    }

    /// A one-call summary of an indexed file: its live symbols and its
    /// connections, strongest first. `NotFound` when no live file of the
    /// project has that relative path.
    pub fn code_map(&self, project: &str, path: &str) -> (r: DbResult<CodeMap>)
        ensures
            r matches Ok(m) ==> m.path@ == path@ && strongest_first(m.top_connections@),
            r matches Err(e) ==> e.code == ErrorCode::DatabaseError || e.code == ErrorCode::NotFound,
    {
        let file_id = self.query_opt_int(
            "SELECT id FROM code_files WHERE project = ?1 AND relative_path = ?2 AND deleted_at IS NULL",
            &[text(project), text(path)],
        )?;
        let file_id = match file_id {
            Some(id) => id,
            None => return Err(IgrisError::not_found(concat_str("no indexed file at ", path))),
        };
        let rows = self.query(
            "SELECT s.id, s.file_id, s.kind, s.name, s.qualified_name, s.start_line, s.end_line,
                    s.indexed_at, s.deleted_at, f.relative_path, f.language
             FROM code_symbols s JOIN code_files f ON f.id = s.file_id
             WHERE s.file_id = ?1 AND s.deleted_at IS NULL",
            &[SqlValue::Integer(file_id)],
        )?;
        let mut symbols: Vec<CodeSymbol> = Vec::new();
        let mut i: usize = 0;
        while i < rows.len()
            invariant
                i <= rows.len(),
            decreases rows.len() - i,
        {
            symbols.push(code_symbol_from_row(&rows[i]));
            i += 1;
        }
        let connections = self.one_hop("file", file_id, "both", None)?;
        let top_connections = sort_by_evidence(connections);
        Ok(CodeMap { path: String::from_str(path), symbols, top_connections })
    }
}

fn clone_opt_string(o: &Option<String>) -> (r: Option<String>)
    ensures
        r == *o,
{
    match o {
        Some(s) => Some(s.clone()),
        None => None,
    }
}

fn clone_edge(e: &CodeEdge) -> (r: CodeEdge)
    ensures
        r == *e,
{
    CodeEdge {
        id: e.id,
        src_id: e.src_id,
        src_type: e.src_type.clone(),
        dst_id: e.dst_id,
        dst_type: clone_opt_string(&e.dst_type),
        dst_name: e.dst_name.clone(),
        relation: e.relation.clone(),
        resolution: e.resolution.clone(),
        external_boundary: e.external_boundary,
        evidence_count: e.evidence_count,
        first_seen: e.first_seen.clone(),
        last_seen: e.last_seen.clone(),
    }
}

fn clone_node(n: &CodeNode) -> (r: CodeNode)
    ensures
        r == *n,
{
    match n {
        CodeNode::File(f) => CodeNode::File(
            CodeFile {
                id: f.id,
                project: f.project.clone(),
                root_path: f.root_path.clone(),
                relative_path: f.relative_path.clone(),
                language: f.language.clone(),
                content_hash: f.content_hash.clone(),
                indexed_at: f.indexed_at.clone(),
                deleted_at: clone_opt_string(&f.deleted_at),
            },
        ),
        CodeNode::Symbol(x) => CodeNode::Symbol(
            CodeSymbol {
                id: x.id,
                file_id: x.file_id,
                kind: x.kind.clone(),
                name: x.name.clone(),
                qualified_name: x.qualified_name.clone(),
                start_line: x.start_line,
                end_line: x.end_line,
                indexed_at: x.indexed_at.clone(),
                deleted_at: clone_opt_string(&x.deleted_at),
                relative_path: x.relative_path.clone(),
                language: x.language.clone(),
            },
        ),
    }
}

/// The node a walk from `from` stands on before its step `k`: `from`
/// itself, then the node each step reached.
pub open spec fn walk_node(p: Seq<CodeNeighbor>, from: (Seq<char>, i64), k: int) -> (Seq<char>, i64) {
    if k <= 0 {
        from
    } else {
        match p[k - 1].node {
            Some(n) => node_key(n),
            None => from,
        }
    }
}

/// The key of the node an entry reached, if known.
pub open spec fn reached_key(n: CodeNeighbor) -> Option<(Seq<char>, i64)> {
    match n.node {
        Some(x) => Some(node_key(x)),
        None => None,
    }
}

/// `key` is reached at hop `depth`: the start at hop 0, else the node an
/// entry of `v` found at hop `depth` reached (`d` holds each entry's hop).
pub open spec fn key_at(v: Seq<CodeNeighbor>, d: Seq<int>, start: (Seq<char>, i64), key: (Seq<char>, i64), depth: int) -> bool {
    (depth == 0 && key == start) || exists|j: int| 0 <= j < v.len() && d[j] == depth && #[trigger] reached_key(v[j]) == Some(key)
}

/// Entry `k` of `v`, found at hop `d[k]`, is one step from a node reached
/// at the hop before by the entries before it.
pub open spec fn found_at(v: Seq<CodeNeighbor>, d: Seq<int>, start: (Seq<char>, i64), hops: int, k: int) -> bool {
    &&& 1 <= d[k] <= hops
    &&& exists|key: (Seq<char>, i64)| key_at(v.take(k), d.take(k), start, key, d[k] - 1) && #[trigger] steps_from(v[k], key.0, key.1)
}

/// The neighbors `v` are found hop by hop outward from `start`, each at a
/// hop between 1 and `hops`, as `d` records.
pub open spec fn found_within(v: Seq<CodeNeighbor>, d: Seq<int>, start: (Seq<char>, i64), hops: int) -> bool {
    &&& d.len() == v.len()
    &&& forall|k: int| 0 <= k < v.len() ==> #[trigger] found_at(v, d, start, hops, k)
}

/// The neighbors `v` of the node (`t`, `id`) are found hop by hop outward,
/// each within `hops` hops of it.
pub open spec fn neighbors_found_within(v: Seq<CodeNeighbor>, t: Seq<char>, id: i64, hops: int) -> bool {
    exists|d: Seq<int>| #[trigger] found_within(v, d, (t, id), hops)
}

/// Appending an entry one step from a node reached at hop `h` (below the
/// cap) keeps the neighbors found within the cap, the new entry at hop
/// `h + 1`; every reached node stays reached.
proof fn lemma_found_push(
    v: Seq<CodeNeighbor>,
    d: Seq<int>,
    start: (Seq<char>, i64),
    hops: int,
    key: (Seq<char>, i64),
    h: int,
    n: CodeNeighbor,
)
    requires
        found_within(v, d, start, hops),
        key_at(v, d, start, key, h),
        0 <= h < hops,
        steps_from(n, key.0, key.1),
    ensures
        found_within(v.push(n), d.push(h + 1), start, hops),
        forall|k: (Seq<char>, i64), dep: int|
            key_at(v, d, start, k, dep) ==> #[trigger] key_at(v.push(n), d.push(h + 1), start, k, dep),
        n.node is Some ==> key_at(v.push(n), d.push(h + 1), start, node_key(n.node->0), h + 1),
{
    let w = v.push(n);
    let e = d.push(h + 1);
    assert forall|k: int| 0 <= k < w.len() implies #[trigger] found_at(w, e, start, hops, k) by {
        if k < v.len() {
            assert(w.take(k) =~= v.take(k));
            assert(e.take(k) =~= d.take(k));
            assert(w[k] == v[k]);
            assert(e[k] == d[k]);
            assert(found_at(v, d, start, hops, k));
            let kk = choose|kk: (Seq<char>, i64)| key_at(v.take(k), d.take(k), start, kk, d[k] - 1) && #[trigger] steps_from(v[k], kk.0, kk.1);
            assert(key_at(w.take(k), e.take(k), start, kk, e[k] - 1) && steps_from(w[k], kk.0, kk.1));
        } else {
            assert(w.take(k) =~= v);
            assert(e.take(k) =~= d);
            assert(e[k] == h + 1);
            assert(w[k] == n);
            assert(key_at(w.take(k), e.take(k), start, key, e[k] - 1) && steps_from(w[k], key.0, key.1));
        }
    }
    assert forall|k: (Seq<char>, i64), dep: int| key_at(v, d, start, k, dep) implies #[trigger] key_at(w, e, start, k, dep) by {
        if !(dep == 0 && k == start) {
            let j = choose|j: int| 0 <= j < v.len() && d[j] == dep && #[trigger] reached_key(v[j]) == Some(k);
            assert(w[j] == v[j]);
            assert(e[j] == d[j]);
        }
    }
    if n.node is Some {
        assert(reached_key(w[v.len() as int]) == Some(node_key(n.node->0)));
        assert(e[v.len() as int] == h + 1);
    }
    assert(found_within(w, e, start, hops));
}

/// A walk extended by one more step from the node it stands on is a walk.
proof fn lemma_walk_extend(p: Seq<CodeNeighbor>, from: (Seq<char>, i64), depth: int, cur: (Seq<char>, i64), n: CodeNeighbor)
    requires
        is_walk(p, from),
        p.len() == depth,
        walk_node(p, from, depth) == cur,
        steps_from(n, cur.0, cur.1),
        n.node is Some,
    ensures
        is_walk(p.push(n), from),
        walk_node(p.push(n), from, depth + 1) == node_key(n.node->0),
{
    let q = p.push(n);
    assert forall|k: int| 0 <= k < q.len() implies (#[trigger] q[k]).node is Some && steps_from(
        q[k],
        walk_node(q, from, k).0,
        walk_node(q, from, k).1,
    ) by {
        if k < p.len() {
            assert(q[k] == p[k]);
            if k > 0 {
                assert(q[k - 1] == p[k - 1]);
            }
            assert(walk_node(q, from, k) == walk_node(p, from, k));
        } else {
            if k > 0 {
                assert(q[k - 1] == p[k - 1]);
            }
            assert(walk_node(q, from, k) == walk_node(p, from, depth));
        }
    }
}

/// `p` is a walk of stored edges from `from`: every step reaches a known
/// node across an edge that touches the node the walk stood on.
pub open spec fn is_walk(p: Seq<CodeNeighbor>, from: (Seq<char>, i64)) -> bool {
    forall|k: int|
        0 <= k < p.len() ==> (#[trigger] p[k]).node is Some && steps_from(p[k], walk_node(p, from, k).0, walk_node(p, from, k).1)
}

/// The decimal form of a signed number.
pub open spec fn spec_decimal_i64(n: i64) -> Seq<char> {
    if n < 0 {
        "-"@ + crate::text::decimal_digits((0 - n) as nat)
    } else {
        crate::text::decimal_digits(n as nat)
    }
}

/// The decimal form of a signed number.
pub fn decimal_i64(n: i64) -> (r: String)
    ensures
        r@ == spec_decimal_i64(n),
{
    if n < 0 {
        concat_str("-", decimal((0 - (n as i128)) as u64).as_str())
    } else {
        decimal(n as u64)
    }
}

/// A copy of a path prefix.
fn clone_path(p: &Vec<CodeNeighbor>) -> (r: Vec<CodeNeighbor>)
    ensures
        r@ == p@,
{
    let mut out: Vec<CodeNeighbor> = Vec::new();
    let mut i: usize = 0;
    while i < p.len()
        invariant
            i <= p.len(),
            out@ == p@.take(i as int),
        decreases p.len() - i,
    {
        out.push(clone_neighbor(&p[i]));
        proof {
            assert(p@.take(i as int + 1) =~= p@.take(i as int).push(p@[i as int]));
        }
        i += 1;
    }
    proof {
        assert(p@.take(p@.len() as int) =~= p@);
    }
    out
}

fn clone_neighbor(n: &CodeNeighbor) -> (r: CodeNeighbor)
    ensures
        r == *n,
{
    CodeNeighbor {
        edge: clone_edge(&n.edge),
        node: match &n.node {
            Some(x) => Some(clone_node(x)),
            None => None,
        },
    }
}

} // verus!
