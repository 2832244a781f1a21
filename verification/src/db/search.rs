use vstd::prelude::*;
use crate::errors::ErrorCode;
use crate::models::{Observation, SearchResult, Stats};
use crate::sql::{cell_int, cell_real, cell_text, cell_text_or_empty, get_int, get_opt_text, get_real, get_text, opt_str_view, param_int, param_text, SqlRow, SqlValue};
use crate::ranking::{dec_int, dec_lt, is_decimal_text, lemma_ascending_key_orders, ascending_key, ascending_key_of, best_positions, text_lt, key_before, key_view, keys_view, picks_best, SortKey};
use crate::text::{chars_of, collapse_whitespace, collapse_ws, is_blank, str_eq, string_from_chars};
use crate::validation::{is_valid_observation_type, validate_limit, validate_observation_type, validate_search_query};
use super::{cap_limit, capped_len, decodes_observation, effective_limit, lemma_filter_take_prefix, lemma_filter_take_step, observation_from_row, opt_view, Database, DbResult, DEFAULT_LIMIT};

verus! {

/// What one character of the collapsed query becomes inside the quoted
/// FTS5 query: a separating space closes one phrase and opens the next,
/// a double quote is dropped, anything else is kept.
pub open spec fn fts_piece(c: char) -> Seq<char> {
    if c == ' ' {
        seq!['"', ' ', '"']
    } else if c == '"' {
        seq![]
    } else {
        seq![c]
    }
}

/// The pieces of a whole collapsed query.
pub open spec fn fts_body(s: Seq<char>) -> Seq<char>
    decreases s.len(),
{
    if s.len() == 0 {
        seq![]
    } else {
        fts_body(s.drop_last()) + fts_piece(s.last())
    }
}

/// The FTS5 query for a user query: each whitespace-separated word, with
/// its double quotes removed, becomes a quoted phrase; phrases are
/// separated by single spaces (so every word must match).
pub open spec fn spec_fts_query(query: Seq<char>) -> Seq<char> {
    seq!['"'] + fts_body(collapse_whitespace(query)) + seq!['"']
}

/// Builds the safe FTS5 query for a user query.
pub fn fts_query(query: &str) -> (r: String)
    ensures
        r@ == spec_fts_query(query@),
{
    let collapsed = collapse_ws(query);
    let v = chars_of(collapsed.as_str());
    let mut out: Vec<char> = Vec::new();
    out.push('"');
    let mut i: usize = 0;
    while i < v.len()
        invariant
            i <= v.len(),
            out@ == seq!['"'] + fts_body(v@.take(i as int)),
        decreases v.len() - i,
    {
        let c = v[i];
        proof {
            assert(v@.take(i + 1).drop_last() =~= v@.take(i as int));
        }
        let ghost before = out@;
        if c == ' ' {
            out.push('"');
            out.push(' ');
            out.push('"');
            assert(out@ =~= before + fts_piece(c));
        } else if c == '"' {
            assert(out@ =~= before + fts_piece(c));
        } else {
            out.push(c);
            assert(out@ =~= before + fts_piece(c));
        }
        i += 1;
    }
    out.push('"');
    proof {
        assert(v@.take(i as int) =~= v@);
    }
    string_from_chars(&out)
}

/// `o` passes the optional type and project filters of a search.
pub open spec fn passes_filters(o: Observation, obs_type: Option<Seq<char>>, project: Option<Seq<char>>) -> bool {
    (obs_type matches Some(t) ==> o.observation_type@ == t)
        && (project matches Some(p) ==> opt_view(o.project) == Some(p))
}

/// Whether an observation passes the optional filters (exec).
fn keeps(o: &Observation, obs_type: Option<&str>, project: Option<&str>) -> (r: bool)
    ensures
        r == passes_filters(*o, match obs_type { Some(s) => Some(s@), None => None },
            match project { Some(s) => Some(s@), None => None }),
{
    let type_ok = match obs_type {
        Some(t) => str_eq(o.observation_type.as_str(), t),
        None => true,
    };
    let project_ok = match project {
        Some(p) => match &o.project {
            Some(op) => str_eq(op.as_str(), p),
            None => false,
        },
        None => true,
    };
    type_ok && project_ok
}

/// The rows a search keeps: live, and of the asked type and project.
pub open spec fn search_pred(obs_type: Option<Seq<char>>, project: Option<Seq<char>>) -> spec_fn(SqlRow) -> bool {
    |row: SqlRow|
        cell_text(row@, 13) is None && (obs_type matches Some(t) ==> cell_text_or_empty(row@, 2) == t) && (
        project matches Some(p) ==> cell_text(row@, 5) == Some(p))
}

/// `res` is what a search row holds: the observation columns, the rank
/// (as decimal text, "0" when absent) and the snippet.
pub open spec fn decodes_search_result(res: SearchResult, row: Seq<SqlValue>) -> bool {
    &&& decodes_observation(res.observation, row)
    &&& res.rank@ == (match cell_real(row, 14) {
        Some(t) => t,
        None => "0"@,
    })
    &&& opt_view(res.snippet) == cell_text(row, 15)
}

/// `v` is what a search answers for the store's rows: the first `limit`
/// kept rows, in the store's (rank) order, each decoded.
pub open spec fn search_results_of(
    v: Seq<SearchResult>,
    rows: Seq<SqlRow>,
    obs_type: Option<Seq<char>>,
    project: Option<Seq<char>>,
    limit: i64,
) -> bool {
    &&& v.len() == capped_len(rows.filter(search_pred(obs_type, project)).len(), limit)
    &&& forall|k: int| 0 <= k < v.len() ==> decodes_search_result(#[trigger] v[k], rows.filter(search_pred(obs_type, project))[k]@)
}

/// Turns the rows of a search into its results: the live rows of the asked
/// type and project, in order, at most `limit` of them (a negative limit
/// keeps all).
pub fn search_results_from_rows(rows: &Vec<SqlRow>, obs_type: Option<&str>, project: Option<&str>, limit: i64) -> (r: Vec<SearchResult>)
    ensures
        search_results_of(r@, rows@, opt_str_view(obs_type), opt_str_view(project), limit),
        limit >= 0 ==> r@.len() <= limit,
        forall|k: int| 0 <= k < r@.len() ==> (#[trigger] r@[k]).observation.deleted_at is None
            && passes_filters(r@[k].observation, opt_str_view(obs_type), opt_str_view(project)),
{
    let ghost p = search_pred(opt_str_view(obs_type), opt_str_view(project));
    let mut out: Vec<SearchResult> = Vec::new();
    let mut i: usize = 0;
    proof {
        assert(rows@.take(0) =~= Seq::<SqlRow>::empty());
        reveal(Seq::filter);
    }
    while i < rows.len() && (limit < 0 || (out.len() as u64) < (limit as u64))
        invariant
            i <= rows.len(),
            p == search_pred(opt_str_view(obs_type), opt_str_view(project)),
            out@.len() == rows@.take(i as int).filter(p).len(),
            forall|k: int| 0 <= k < out@.len() ==> decodes_search_result(#[trigger] out@[k], rows@.take(i as int).filter(p)[k]@),
            limit >= 0 ==> out@.len() <= limit,
            forall|k: int| 0 <= k < out@.len() ==> (#[trigger] out@[k]).observation.deleted_at is None
                && passes_filters(out@[k].observation, opt_str_view(obs_type), opt_str_view(project)),
        decreases rows.len() - i,
    {
        proof {
            lemma_filter_take_step(rows@, p, i as int);
        }
        let row = &rows[i];
        let o = observation_from_row(row);
        if o.deleted_at.is_none() && keeps(&o, obs_type, project) {
            out.push(SearchResult { observation: o, rank: get_real(row, 14, "0"), snippet: get_opt_text(row, 15) });
        }
        i += 1;
    }
    proof {
        lemma_filter_take_prefix(rows@, p, i as int);
        if i == rows.len() {
            assert(rows@.take(i as int) =~= rows@);
        }
    }
    out
}

/// The parameters of the match of a search: the FTS query, then the type
/// and the project when given.
pub open spec fn spec_search_match_params(
    p: Seq<SqlValue>,
    query: Seq<char>,
    obs_type: Option<Seq<char>>,
    project: Option<Seq<char>>,
) -> bool {
    let n: int = 1 + (if obs_type is Some { 1int } else { 0int }) + (if project is Some { 1int } else { 0int });
    &&& p.len() == n
    &&& param_text(p[0], spec_fts_query(query))
    &&& (obs_type matches Some(t) ==> param_text(p[1], t))
    &&& (project matches Some(pr) ==> param_text(p[n - 1], pr))
}

/// Builds the parameters of the match of a search.
pub fn search_match_params(query: &str, obs_type: Option<&str>, project: Option<&str>) -> (r: Vec<SqlValue>)
    ensures
        spec_search_match_params(r@, query@, opt_str_view(obs_type), opt_str_view(project)),
{
    let mut params: Vec<SqlValue> = Vec::new();
    params.push(SqlValue::Text(fts_query(query)));
    if let Some(t) = obs_type {
        params.push(crate::sql::text(t));
    }
    if let Some(p) = project {
        params.push(crate::sql::text(p));
    }
    params
}

/// The rank text of a search row (column 14; `0` when absent).
pub open spec fn row_rank(row: Seq<SqlValue>) -> Seq<char> {
    match cell_real(row, 14) {
        Some(t) => t,
        None => "0"@,
    }
}

/// How a search result ranks: smaller rank first, then larger id.
pub open spec fn rank_key(res: SearchResult) -> SortKey {
    ascending_key(res.rank@, res.observation.id)
}

/// How a search row ranks, as `rank_key` of its decoding.
pub open spec fn row_rank_key(row: Seq<SqlValue>) -> SortKey {
    ascending_key(row_rank(row), cell_int(row, 0, 0))
}

/// The positions, in order, of the rows a search keeps.
pub open spec fn search_rows(rows: Seq<SqlRow>, obs_type: Option<Seq<char>>, project: Option<Seq<char>>) -> Seq<usize>
    decreases rows.len(),
{
    if rows.len() == 0 {
        Seq::empty()
    } else if search_pred(obs_type, project)(rows.last()) {
        search_rows(rows.drop_last(), obs_type, project).push((rows.len() - 1) as usize)
    } else {
        search_rows(rows.drop_last(), obs_type, project)
    }
}

/// How the kept rows rank, in order.
pub open spec fn search_keys(rows: Seq<SqlRow>, obs_type: Option<Seq<char>>, project: Option<Seq<char>>) -> Seq<SortKey> {
    search_rows(rows, obs_type, project).map_values(|j: usize| row_rank_key(rows[j as int]@))
}

/// The kept positions are rows the search keeps.
proof fn lemma_search_rows_keep(rows: Seq<SqlRow>, obs_type: Option<Seq<char>>, project: Option<Seq<char>>, c: int)
    requires
        0 <= c < search_rows(rows, obs_type, project).len(),
        rows.len() <= usize::MAX,
    ensures
        search_rows(rows, obs_type, project)[c] < rows.len(),
        search_pred(obs_type, project)(rows[search_rows(rows, obs_type, project)[c] as int]),
    decreases rows.len(),
{
    let prev = search_rows(rows.drop_last(), obs_type, project);
    if search_pred(obs_type, project)(rows.last()) && c == prev.len() {
        assert(rows.last() == rows[rows.len() - 1]);
    } else {
        lemma_search_rows_keep(rows.drop_last(), obs_type, project, c);
        assert(rows.drop_last()[prev[c] as int] == rows[prev[c] as int]);
    }
}

/// Filtering rows that all pass keeps them all.
proof fn lemma_filter_all_pass(s: Seq<SqlRow>, p: spec_fn(SqlRow) -> bool)
    requires
        forall|k: int| 0 <= k < s.len() ==> p(#[trigger] s[k]),
    ensures
        s.filter(p) == s,
    decreases s.len(),
{
    reveal(Seq::filter);
    if s.len() > 0 {
        assert(s.last() == s[s.len() - 1]);
        lemma_filter_all_pass(s.drop_last(), p);
        assert(s.drop_last().push(s.last()) =~= s);
    } else {
        assert(s.filter(p) =~= s);
    }
}

/// `v` are the results a search chose from the rows `rows`: `picked` are
/// the best-ranked `limit` of the kept rows, best first, and `v` decodes
/// them in that order.
pub open spec fn search_chosen(
    v: Seq<SearchResult>,
    rows: Seq<SqlRow>,
    picked: Seq<usize>,
    obs_type: Option<Seq<char>>,
    project: Option<Seq<char>>,
    limit: i64,
) -> bool {
    let ck = search_keys(rows, obs_type, project);
    &&& picks_best(picked, ck, limit)
    &&& picked.len() == v.len()
    &&& forall|k: int| 0 <= k < v.len() ==> rank_key(#[trigger] v[k]) == ck[picked[k] as int]
    &&& forall|k: int|
        0 <= k < v.len() ==> (#[trigger] v[k]).rank@ == row_rank(rows[search_rows(rows, obs_type, project)[picked[k] as int] as int]@)
            && v[k].observation.id == cell_int(rows[search_rows(rows, obs_type, project)[picked[k] as int] as int]@, 0, 0)
}

/// Every kept row is among the kept positions.
proof fn lemma_search_rows_contain(rows: Seq<SqlRow>, obs_type: Option<Seq<char>>, project: Option<Seq<char>>, j: int)
    requires
        0 <= j < rows.len(),
        search_pred(obs_type, project)(rows[j]),
    ensures
        exists|c: int|
            0 <= c < search_rows(rows, obs_type, project).len() && #[trigger] search_rows(rows, obs_type, project)[c]
                == j as usize,
    decreases rows.len(),
{
    let cr = search_rows(rows, obs_type, project);
    if j == rows.len() - 1 {
        assert(rows.last() == rows[j]);
        assert(cr[cr.len() - 1] == j as usize);
    } else {
        assert(rows.drop_last()[j] == rows[j]);
        lemma_search_rows_contain(rows.drop_last(), obs_type, project, j);
        let prev = search_rows(rows.drop_last(), obs_type, project);
        let c = choose|c: int| 0 <= c < prev.len() && #[trigger] prev[c] == j as usize;
        assert(cr[c] == prev[c]);
    }
}

/// The kept positions are positions of rows.
proof fn lemma_search_rows_bound(rows: Seq<SqlRow>, obs_type: Option<Seq<char>>, project: Option<Seq<char>>)
    requires
        rows.len() <= usize::MAX,
    ensures
        search_rows(rows, obs_type, project).len() <= rows.len(),
        forall|c: int|
            0 <= c < search_rows(rows, obs_type, project).len() ==> (#[trigger] search_rows(rows, obs_type, project)[c])
                < rows.len(),
    decreases rows.len(),
{
    if rows.len() > 0 {
        lemma_search_rows_bound(rows.drop_last(), obs_type, project);
        let prev = search_rows(rows.drop_last(), obs_type, project);
        let cr = search_rows(rows, obs_type, project);
        if search_pred(obs_type, project)(rows.last()) {
            assert(cr == prev.push((rows.len() - 1) as usize));
            assert forall|c: int| 0 <= c < cr.len() implies (#[trigger] cr[c]) < rows.len() by {
                if c < prev.len() {
                    assert(cr[c] == prev[c]);
                }
            }
        } else {
            assert(cr == prev);
        }
    }
}

/// Search results come best-ranked first: no result has a smaller rank
/// than one before it; and no matching live row (of the asked type and
/// project) that was left out has a smaller rank than any result. Ranks
/// are the decimal texts the engine's floats are written as.
pub proof fn law_search_best_ranked_first(
    v: Seq<SearchResult>,
    rows: Seq<SqlRow>,
    picked: Seq<usize>,
    obs_type: Option<Seq<char>>,
    project: Option<Seq<char>>,
    limit: i64,
)
    requires
        search_chosen(v, rows, picked, obs_type, project, limit),
        rows.len() <= usize::MAX,
        forall|j: int|
            0 <= j < rows.len() ==> is_decimal_text(#[trigger] row_rank(rows[j]@)) && dec_int(row_rank(rows[j]@)).len()
                <= 0x40000000,
    ensures
        forall|k: int, m: int|
            #![trigger v[k], v[m]]
            0 <= k < m < v.len() ==> !dec_lt(v[m].rank@, v[k].rank@),
        forall|j: int, k: int|
            #![trigger rows[j], v[k]]
            0 <= j < rows.len() && 0 <= k < v.len() && search_pred(obs_type, project)(rows[j]) && !(exists|q: int|
                0 <= q < picked.len() && search_rows(rows, obs_type, project)[picked[q] as int] == j as usize)
                ==> !dec_lt(row_rank(rows[j]@), v[k].rank@),
{
    let ck = search_keys(rows, obs_type, project);
    let cr = search_rows(rows, obs_type, project);
    lemma_search_rows_bound(rows, obs_type, project);
    assert forall|k: int| 0 <= k < v.len() implies is_decimal_text(#[trigger] v[k].rank@) && dec_int(v[k].rank@).len()
        <= 0x40000000 && ascending_key(v[k].rank@, v[k].observation.id) == ck[picked[k] as int] by {
        let c = picked[k] as int;
        assert(cr[c] < rows.len());
        assert(v[k].rank@ == row_rank(rows[cr[c] as int]@));
        assert(rank_key(v[k]) == ck[picked[k] as int]);
    }
    assert forall|k: int, m: int| 0 <= k < m < v.len() implies !dec_lt(v[m].rank@, v[k].rank@) by {
        assert(!key_before(ck[picked[m] as int], ck[picked[k] as int]));
        if dec_lt(v[m].rank@, v[k].rank@) {
            lemma_ascending_key_orders(v[k].rank@, v[k].observation.id, v[m].rank@, v[m].observation.id);
        }
    }
    assert forall|j: int, k: int|
        0 <= j < rows.len() && 0 <= k < v.len() && search_pred(obs_type, project)(rows[j]) && !(exists|q: int|
            0 <= q < picked.len() && cr[picked[q] as int] == j as usize) implies !dec_lt(row_rank(rows[j]@), v[k].rank@) by {
        lemma_search_rows_contain(rows, obs_type, project, j);
        let c = choose|c: int| 0 <= c < cr.len() && #[trigger] cr[c] == j as usize;
        assert(cr[c] as int == j);
        assert(ck[c] == row_rank_key(rows[j]@));
        if picked.contains(c as usize) {
            let q = choose|q: int| 0 <= q < picked.len() && picked[q] == c as usize;
            assert(picked[q] as int == c);
            assert(cr[picked[q] as int] == j as usize);
        }
        assert(!key_before(ck[c], ck[picked[k] as int]));
        if dec_lt(row_rank(rows[j]@), v[k].rank@) {
            lemma_ascending_key_orders(v[k].rank@, v[k].observation.id, row_rank(rows[j]@), cell_int(rows[j]@, 0, 0));
        }
    }
}

/// How recent an observation is: its last update time, then its id,
/// larger first.
pub open spec fn recency_key(o: Observation) -> SortKey {
    (0, o.updated_at@, o.id)
}

/// The recency of an observation row, as `recency_key` of its decoding.
pub open spec fn row_recency_key(row: Seq<SqlValue>) -> SortKey {
    (0, cell_text_or_empty(row, 12), cell_int(row, 0, 0))
}

/// The observation row is live and of `project` when one is given.
pub open spec fn recent_row(row: Seq<SqlValue>, project: Option<Seq<char>>) -> bool {
    cell_text(row, 13) is None && (project matches Some(p) ==> cell_text(row, 5) == Some(p))
}

/// The positions, in order, of the rows a recent-context request can
/// return.
pub open spec fn recent_rows(rows: Seq<Seq<SqlValue>>, project: Option<Seq<char>>) -> Seq<usize>
    decreases rows.len(),
{
    if rows.len() == 0 {
        Seq::empty()
    } else if recent_row(rows.last(), project) {
        recent_rows(rows.drop_last(), project).push((rows.len() - 1) as usize)
    } else {
        recent_rows(rows.drop_last(), project)
    }
}

/// The recency of those rows, in order.
pub open spec fn recent_keys(rows: Seq<Seq<SqlValue>>, project: Option<Seq<char>>) -> Seq<SortKey> {
    recent_rows(rows, project).map_values(|j: usize| row_recency_key(rows[j as int]))
}

/// The candidate positions are rows that a request can return.
proof fn lemma_recent_rows_keep(rows: Seq<Seq<SqlValue>>, project: Option<Seq<char>>, c: int)
    requires
        0 <= c < recent_rows(rows, project).len(),
        rows.len() <= usize::MAX,
    ensures
        recent_rows(rows, project)[c] < rows.len(),
        recent_row(rows[recent_rows(rows, project)[c] as int], project),
    decreases rows.len(),
{
    let prev = recent_rows(rows.drop_last(), project);
    if recent_row(rows.last(), project) && c == prev.len() {
        assert(rows.last() == rows[rows.len() - 1]);
    } else {
        lemma_recent_rows_keep(rows.drop_last(), project, c);
        assert(rows.drop_last()[prev[c] as int] == rows[prev[c] as int]);
    }
}

/// `v` are the observations chosen from the rows `rows`: the best `limit`
/// by recency of the live ones (of `project` when given), newest first.
pub open spec fn recent_chosen(
    v: Seq<Observation>,
    rows: Seq<SqlRow>,
    picked: Seq<usize>,
    project: Option<Seq<char>>,
    limit: i64,
) -> bool {
    let ck = recent_keys(crate::db::rows_view(rows), project);
    &&& picks_best(picked, ck, limit)
    &&& picked.len() == v.len()
    &&& forall|k: int| 0 <= k < v.len() ==> recency_key(#[trigger] v[k]) == ck[picked[k] as int]
}

/// Every live row (of the project, when one is given) is a candidate.
proof fn lemma_recent_rows_contain(rows: Seq<Seq<SqlValue>>, project: Option<Seq<char>>, j: int)
    requires
        0 <= j < rows.len(),
        recent_row(rows[j], project),
    ensures
        exists|c: int| 0 <= c < recent_rows(rows, project).len() && #[trigger] recent_rows(rows, project)[c] == j as usize,
    decreases rows.len(),
{
    let cr = recent_rows(rows, project);
    if j == rows.len() - 1 {
        assert(rows.last() == rows[j]);
        assert(cr[cr.len() - 1] == j as usize);
    } else {
        assert(rows.drop_last()[j] == rows[j]);
        lemma_recent_rows_contain(rows.drop_last(), project, j);
        let prev = recent_rows(rows.drop_last(), project);
        let c = choose|c: int| 0 <= c < prev.len() && #[trigger] prev[c] == j as usize;
        assert(cr[c] == prev[c]);
    }
}

/// The candidate positions are positions of rows.
proof fn lemma_recent_rows_bound(rows: Seq<Seq<SqlValue>>, project: Option<Seq<char>>)
    requires
        rows.len() <= usize::MAX,
    ensures
        recent_rows(rows, project).len() <= rows.len(),
        forall|c: int| 0 <= c < recent_rows(rows, project).len() ==> (#[trigger] recent_rows(rows, project)[c]) < rows.len(),
    decreases rows.len(),
{
    if rows.len() > 0 {
        lemma_recent_rows_bound(rows.drop_last(), project);
    }
}

/// Recent context comes newest first: no observation returned was updated
/// later than one returned before it; and every live observation (of the
/// project, when one is given) that was left out was updated no later
/// than any observation returned.
pub proof fn law_recent_context_newest_first(
    v: Seq<Observation>,
    rows: Seq<SqlRow>,
    picked: Seq<usize>,
    project: Option<Seq<char>>,
    limit: i64,
)
    requires
        recent_chosen(v, rows, picked, project, limit),
        rows.len() <= usize::MAX,
    ensures
        forall|k: int, m: int|
            #![trigger v[k], v[m]]
            0 <= k < m < v.len() ==> !text_lt(v[k].updated_at@, v[m].updated_at@),
        forall|j: int, k: int|
            #![trigger rows[j], v[k]]
            0 <= j < rows.len() && 0 <= k < v.len() && cell_text(rows[j]@, 13) is None && (project matches Some(p)
                ==> cell_text(rows[j]@, 5) == Some(p)) && !(exists|q: int|
                0 <= q < picked.len() && recent_rows(crate::db::rows_view(rows), project)[picked[q] as int] == j as usize)
                ==> !text_lt(v[k].updated_at@, cell_text_or_empty(rows[j]@, 12)),
{
    let rv = crate::db::rows_view(rows);
    let ck = recent_keys(rv, project);
    let cr = recent_rows(rv, project);
    lemma_recent_rows_bound(rv, project);
    assert forall|k: int, m: int| 0 <= k < m < v.len() implies !text_lt(v[k].updated_at@, v[m].updated_at@) by {
        assert(recency_key(v[k]) == ck[picked[k] as int]);
        assert(recency_key(v[m]) == ck[picked[m] as int]);
        assert(!key_before(ck[picked[m] as int], ck[picked[k] as int]));
    }
    assert forall|j: int, k: int|
        0 <= j < rows.len() && 0 <= k < v.len() && cell_text(rows[j]@, 13) is None && (project matches Some(p) ==> cell_text(
            rows[j]@,
            5,
        ) == Some(p)) && !(exists|q: int| 0 <= q < picked.len() && cr[picked[q] as int] == j as usize) implies !text_lt(
        v[k].updated_at@,
        cell_text_or_empty(rows[j]@, 12),
    ) by {
        assert(rv[j] == rows[j]@);
        lemma_recent_rows_contain(rv, project, j);
        let c = choose|c: int| 0 <= c < cr.len() && #[trigger] cr[c] == j as usize;
        assert(ck[c] == row_recency_key(rv[cr[c] as int]));
        assert(cr[c] as int == j);
        if picked.contains(c as usize) {
            let q = choose|q: int| 0 <= q < picked.len() && picked[q] == c as usize;
            assert(picked[q] as int == c);
            assert(cr[picked[q] as int] == j as usize);
        }
        assert(recency_key(v[k]) == ck[picked[k] as int]);
        assert(!key_before(ck[c], ck[picked[k] as int]));
    }
}

/// The parameters of a search: the FTS query, then the type and the
/// project when given, then the limit.
pub open spec fn spec_search_params(
    p: Seq<SqlValue>,
    query: Seq<char>,
    obs_type: Option<Seq<char>>,
    project: Option<Seq<char>>,
    limit: i64,
) -> bool {
    let n: int = 2 + (if obs_type is Some { 1int } else { 0int }) + (if project is Some { 1int } else { 0int });
    &&& p.len() == n
    &&& param_text(p[0], spec_fts_query(query))
    &&& (obs_type matches Some(t) ==> param_text(p[1], t))
    &&& (project matches Some(pr) ==> param_text(p[n - 2], pr))
    &&& param_int(p[n - 1], limit)
}

/// Builds the parameters of a search.
pub fn search_params(query: &str, obs_type: Option<&str>, project: Option<&str>, limit: i64) -> (r: Vec<SqlValue>)
    ensures
        spec_search_params(r@, query@, opt_str_view(obs_type), opt_str_view(project), limit),
{
    let mut params: Vec<SqlValue> = Vec::new();
    params.push(SqlValue::Text(fts_query(query)));
    if let Some(t) = obs_type {
        params.push(crate::sql::text(t));
    }
    if let Some(p) = project {
        params.push(crate::sql::text(p));
    }
    params.push(SqlValue::Integer(limit));
    params
}

impl Database {
    /// Full-text search over live observations: every word of `query` must
    /// match; results are best-ranked first, optionally restricted to a
    /// type and a project, at most `limit` (default 20, capped at 50).
    pub fn search(
        &self,
        query: &str,
        obs_type: Option<&str>,
        project: Option<&str>,
        limit: Option<i64>,
    ) -> (r: DbResult<Vec<SearchResult>>)
        ensures
            is_blank(query@) ==> (r matches Err(e) && e.code == ErrorCode::ValidationError),
            (limit matches Some(n) && n < 1) ==> (r matches Err(e) && e.code == ErrorCode::ValidationError),
            (obs_type matches Some(t) && !is_valid_observation_type(t@)) ==> (r matches Err(e) && e.code
                == ErrorCode::ValidationError),
            (!is_blank(query@) && !(limit matches Some(n) && n < 1) && !(obs_type matches Some(t)
                && !is_valid_observation_type(t@))) ==> (r matches Err(e) ==> e.code == ErrorCode::DatabaseError),
            r matches Ok(v) ==> v@.len() <= effective_limit(limit, DEFAULT_LIMIT),
            r matches Ok(v) ==> exists|rows: Seq<SqlRow>|
                #[trigger] search_results_of(v@, rows, opt_str_view(obs_type), opt_str_view(project), effective_limit(limit, DEFAULT_LIMIT)),
            r matches Ok(v) ==> forall|k: int| 0 <= k < v@.len() ==> (#[trigger] v@[k]).observation.deleted_at is None
                && passes_filters(v@[k].observation, match obs_type { Some(s) => Some(s@), None => None },
                    match project { Some(s) => Some(s@), None => None }),
            r matches Ok(v) ==> forall|k: int, m: int|
                0 <= k < m < v@.len() ==> !#[trigger] key_before(rank_key(v@[m]), rank_key(v@[k])),
            r matches Ok(v) ==> exists|rows: Seq<SqlRow>, picked: Seq<usize>| #[trigger] search_chosen(
                v@,
                rows,
                picked,
                opt_str_view(obs_type),
                opt_str_view(project),
                effective_limit(limit, DEFAULT_LIMIT),
            ),
    {
        validate_search_query(query)?;
        validate_limit(limit)?;
        if let Some(t) = obs_type {
            validate_observation_type(t)?;
        }
        let limit = cap_limit(limit, DEFAULT_LIMIT);
        let sql = match (obs_type.is_some(), project.is_some()) {
            (true, true) => "SELECT o.id, o.session_id, o.type, o.title, o.content, o.project,
                   o.scope, o.topic_key, o.tags, o.revision_count, o.duplicate_count,
                   o.created_at, o.updated_at, o.deleted_at,
                   fts.rank,
                   snippet(observations_fts, 1, '→', '←', '...', 32) AS snippet
            FROM observations_fts fts
            JOIN observations o ON o.id = fts.rowid
            WHERE observations_fts MATCH ?1
              AND o.deleted_at IS NULL AND o.type = ?2 AND o.project = ?3",
            (true, false) => "SELECT o.id, o.session_id, o.type, o.title, o.content, o.project,
                   o.scope, o.topic_key, o.tags, o.revision_count, o.duplicate_count,
                   o.created_at, o.updated_at, o.deleted_at,
                   fts.rank,
                   snippet(observations_fts, 1, '→', '←', '...', 32) AS snippet
            FROM observations_fts fts
            JOIN observations o ON o.id = fts.rowid
            WHERE observations_fts MATCH ?1
              AND o.deleted_at IS NULL AND o.type = ?2",
            (false, true) => "SELECT o.id, o.session_id, o.type, o.title, o.content, o.project,
                   o.scope, o.topic_key, o.tags, o.revision_count, o.duplicate_count,
                   o.created_at, o.updated_at, o.deleted_at,
                   fts.rank,
                   snippet(observations_fts, 1, '→', '←', '...', 32) AS snippet
            FROM observations_fts fts
            JOIN observations o ON o.id = fts.rowid
            WHERE observations_fts MATCH ?1
              AND o.deleted_at IS NULL AND o.project = ?2",
            (false, false) => "SELECT o.id, o.session_id, o.type, o.title, o.content, o.project,
                   o.scope, o.topic_key, o.tags, o.revision_count, o.duplicate_count,
                   o.created_at, o.updated_at, o.deleted_at,
                   fts.rank,
                   snippet(observations_fts, 1, '→', '←', '...', 32) AS snippet
            FROM observations_fts fts
            JOIN observations o ON o.id = fts.rowid
            WHERE observations_fts MATCH ?1
              AND o.deleted_at IS NULL",
        };
        let params = search_match_params(query, obs_type, project);
        let rows = self.query(sql, params.as_slice())?;
        let ghost tv = opt_str_view(obs_type);
        let ghost pv = opt_str_view(project);
        let ghost pred = search_pred(tv, pv);
        let mut cand: Vec<usize> = Vec::new();
        let mut keys: Vec<(i64, Vec<char>, i64)> = Vec::new();
        let mut i: usize = 0;
        while i < rows.len()
            invariant
                i <= rows@.len(),
                tv == opt_str_view(obs_type),
                pv == opt_str_view(project),
                pred == search_pred(tv, pv),
                cand@.len() == keys@.len(),
                cand@ == search_rows(rows@.take(i as int), tv, pv),
                forall|k: int| 0 <= k < cand@.len() ==> (#[trigger] cand@[k]) < i,
                forall|k: int| 0 <= k < keys@.len() ==> key_view(#[trigger] keys@[k]) == row_rank_key(rows@[cand@[k] as int]@),
            decreases rows.len() - i,
        {
            proof {
                assert(rows@.take(i as int + 1).drop_last() =~= rows@.take(i as int));
                assert(rows@.take(i as int + 1).last() == rows@[i as int]);
            }
            let row = &rows[i];
            let o = observation_from_row(row);
            if o.deleted_at.is_none() && keeps(&o, obs_type, project) {
                cand.push(i);
                let rank = get_real(row, 14, "0");
                keys.push(ascending_key_of(rank.as_str(), o.id));
            }
            i += 1;
        }
        proof {
            assert(rows@.take(rows@.len() as int) =~= rows@);
        }
        let picked = best_positions(&keys, limit);
        let ghost ck = keys_view(keys@);
        proof {
            assert forall|k: int| 0 <= k < ck.len() implies #[trigger] ck[k] == row_rank_key(rows@[cand@[k] as int]@) by {
                assert(ck[k] == key_view(keys@[k]));
            }
            assert(ck =~= search_keys(rows@, tv, pv));
        }
        let mut out: Vec<SearchResult> = Vec::new();
        let ghost mut chosen: Seq<SqlRow> = Seq::empty();
        let n_rows = rows.len();
        let mut p: usize = 0;
        while p < picked.len()
            invariant
                n_rows == rows@.len(),
                p <= picked@.len(),
                picks_best(picked@, ck, limit),
                ck.len() == cand@.len(),
                tv == opt_str_view(obs_type),
                pv == opt_str_view(project),
                pred == search_pred(tv, pv),
                cand@ == search_rows(rows@, tv, pv),
                forall|k: int| 0 <= k < ck.len() ==> #[trigger] ck[k] == row_rank_key(rows@[cand@[k] as int]@),
                out@.len() == p,
                chosen.len() == p,
                forall|k: int| 0 <= k < out@.len() ==> rank_key(#[trigger] out@[k]) == ck[picked@[k] as int],
                forall|k: int|
                    0 <= k < out@.len() ==> (#[trigger] out@[k]).rank@ == row_rank(rows@[cand@[picked@[k] as int] as int]@)
                        && out@[k].observation.id == cell_int(rows@[cand@[picked@[k] as int] as int]@, 0, 0),
                forall|k: int| 0 <= k < out@.len() ==> decodes_search_result(#[trigger] out@[k], chosen[k]@),
                forall|k: int| 0 <= k < chosen.len() ==> pred(#[trigger] chosen[k]),
                forall|k: int| 0 <= k < out@.len() ==> (#[trigger] out@[k]).observation.deleted_at is None
                    && passes_filters(out@[k].observation, opt_str_view(obs_type), opt_str_view(project)),
            decreases picked.len() - p,
        {
            let at = cand[picked[p]];
            proof {
                lemma_search_rows_keep(rows@, tv, pv, picked@[p as int] as int);
            }
            let row = &rows[at];
            let o = observation_from_row(row);
            let res = SearchResult { observation: o, rank: get_real(row, 14, "0"), snippet: get_opt_text(row, 15) };
            proof {
                assert(decodes_search_result(res, row@));
                chosen = chosen.push(*row);
            }
            out.push(res);
            p += 1;
        }
        proof {
            reveal(Seq::filter);
            lemma_filter_all_pass(chosen, pred);
            assert(search_results_of(out@, chosen, tv, pv, limit));
            assert(search_chosen(out@, rows@, picked@, tv, pv, limit));
        }
        Ok(out)
    }

    /// The most recently updated live observations, optionally of one
    /// project, newest first (latest `updated_at`, then highest id), at
    /// most `limit` (default 20, capped at 50; a negative limit means no
    /// cap).
    pub fn recent_context(&self, project: Option<&str>, limit: Option<i64>) -> (r: DbResult<Vec<Observation>>)
        ensures
            r matches Ok(v) ==> (effective_limit(limit, DEFAULT_LIMIT) >= 0 ==> v@.len()
                <= effective_limit(limit, DEFAULT_LIMIT)),
            r matches Ok(v) ==> forall|k: int| 0 <= k < v@.len() ==> (#[trigger] v@[k]).deleted_at is None
                && passes_filters(v@[k], None, match project { Some(s) => Some(s@), None => None }),
            r matches Err(e) ==> e.code == ErrorCode::DatabaseError,
            r matches Ok(v) ==> forall|k: int, m: int|
                0 <= k < m < v@.len() ==> !#[trigger] key_before(recency_key(v@[m]), recency_key(v@[k])),
            r matches Ok(v) ==> exists|rows: Seq<SqlRow>, picked: Seq<usize>| #[trigger] recent_chosen(
                v@,
                rows,
                picked,
                opt_str_view(project),
                effective_limit(limit, DEFAULT_LIMIT),
            ),
    {
        let limit = cap_limit(limit, DEFAULT_LIMIT);
        let rows = self.query(
            "SELECT id, session_id, type, title, content, project, scope,
                    topic_key, tags, revision_count, duplicate_count,
                    created_at, updated_at, deleted_at
             FROM observations",
            &[],
        )?;
        let ghost rv = crate::db::rows_view(rows@);
        let ghost pv = opt_str_view(project);
        let mut cand: Vec<usize> = Vec::new();
        let mut keys: Vec<(i64, Vec<char>, i64)> = Vec::new();
        let mut i: usize = 0;
        while i < rows.len()
            invariant
                i <= rows@.len(),
                rv == crate::db::rows_view(rows@),
                pv == opt_str_view(project),
                cand@.len() == keys@.len(),
                cand@ == recent_rows(rv.take(i as int), pv),
                forall|k: int| 0 <= k < cand@.len() ==> (#[trigger] cand@[k]) < i,
                forall|k: int| 0 <= k < keys@.len() ==> key_view(#[trigger] keys@[k]) == row_recency_key(rv[cand@[k] as int]),
            decreases rows.len() - i,
        {
            proof {
                assert(rv.take(i as int + 1).drop_last() =~= rv.take(i as int));
                assert(rv.take(i as int + 1).last() == rv[i as int]);
                assert(rv[i as int] == rows@[i as int]@);
            }
            let o = observation_from_row(&rows[i]);
            if o.deleted_at.is_none() && keeps(&o, None, project) {
                cand.push(i);
                keys.push((0, chars_of(o.updated_at.as_str()), o.id));
            }
            i += 1;
        }
        proof {
            assert(rv.take(rows@.len() as int) =~= rv);
        }
        let picked = best_positions(&keys, limit);
        let ghost ck = keys_view(keys@);
        proof {
            assert forall|k: int| 0 <= k < ck.len() implies #[trigger] ck[k] == row_recency_key(rv[cand@[k] as int]) by {
                assert(ck[k] == key_view(keys@[k]));
            }
            assert(ck =~= recent_keys(rv, pv));
        }
        let mut out: Vec<Observation> = Vec::new();
        let n_rows = rows.len();
        let mut p: usize = 0;
        while p < picked.len()
            invariant
                n_rows == rows@.len(),
                p <= picked@.len(),
                picks_best(picked@, ck, limit),
                ck.len() == cand@.len(),
                rv == crate::db::rows_view(rows@),
                pv == opt_str_view(project),
                cand@ == recent_rows(rv, pv),
                forall|k: int| 0 <= k < cand@.len() ==> (#[trigger] cand@[k]) < rows@.len(),
                forall|k: int| 0 <= k < ck.len() ==> #[trigger] ck[k] == row_recency_key(rv[cand@[k] as int]),
                out@.len() == p,
                forall|k: int| 0 <= k < out@.len() ==> recency_key(#[trigger] out@[k]) == ck[picked@[k] as int],
                forall|k: int| 0 <= k < out@.len() ==> (#[trigger] out@[k]).deleted_at is None
                    && passes_filters(out@[k], None, match project { Some(s) => Some(s@), None => None }),
            decreases picked.len() - p,
        {
            let at = cand[picked[p]];
            let o = observation_from_row(&rows[at]);
            proof {
                assert(rv[at as int] == rows@[at as int]@);
                assert(rv.len() == n_rows);
                assert(recent_row(rv[at as int], pv)) by {
                    lemma_recent_rows_keep(rv, pv, picked@[p as int] as int);
                }
            }
            out.push(o);
            p += 1;
        }
        proof {
            assert(recent_chosen(out@, rows@, picked@, pv, limit));
        }
        Ok(out)
    }

    /// Aggregate statistics: live observations, sessions, open sessions, and
    /// live observations per type and per project (`unset` for none).
    pub fn stats(&self) -> (r: DbResult<Stats>)
        ensures
            r matches Err(e) ==> e.code == ErrorCode::DatabaseError,
    {
        let total_observations = self.query_int("SELECT COUNT(*) FROM observations WHERE deleted_at IS NULL", &[])?;
        let total_sessions = self.query_int("SELECT COUNT(*) FROM sessions", &[])?;
        let active_sessions = self.query_int("SELECT COUNT(*) FROM sessions WHERE ended_at IS NULL", &[])?;
        let total_entities = self.query_int("SELECT COUNT(*) FROM entities WHERE deleted_at IS NULL", &[])?;
        let total_edges = self.query_int("SELECT COUNT(*) FROM edges WHERE deleted_at IS NULL", &[])?;
        let type_rows = self.query(
            "SELECT type, COUNT(*) FROM observations WHERE deleted_at IS NULL GROUP BY type",
            &[],
        )?;
        let project_rows = self.query(
            "SELECT IFNULL(project, 'unset'), COUNT(*) FROM observations WHERE deleted_at IS NULL GROUP BY project",
            &[],
        )?;
        Ok(Stats {
            total_observations,
            total_sessions,
            active_sessions,
            total_entities,
            total_edges,
            by_type: count_pairs(&type_rows),
            by_project: count_pairs(&project_rows),
        })
    }
}

/// (key, count) pairs from two-column rows.
fn count_pairs(rows: &Vec<SqlRow>) -> (r: Vec<(String, i64)>)
    ensures
        r@.len() == rows@.len(),
{
    let mut out: Vec<(String, i64)> = Vec::new();
    let mut i: usize = 0;
    while i < rows.len()
        invariant
            i <= rows.len(),
            out@.len() == i,
        decreases rows.len() - i,
    {
        out.push((get_text(&rows[i], 0), get_int(&rows[i], 1, 0)));
        i += 1;
    }
    out
}

} // verus!
