//! The SQLite-backed store: observations, sessions, the entity graph and the
//! code graph. Every statement is built and checked here; the engine only
//! runs it.

use vstd::prelude::*;
use crate::errors::{ErrorCode, IgrisError};
use crate::json::{json_string_array, parse_string_array, strings_view};
use crate::models::Observation;
use crate::schema::{PRAGMAS, SCHEMA_V1, SCHEMA_V2, SCHEMA_V3, SCHEMA_V4, SCHEMA_V5, SCHEMA_VERSION};
use crate::sql::{
    param_int, param_text,
    cell_int, cell_text, cell_text_or_empty, engine_error_message, engine_execute, engine_execute_batch,
    engine_last_insert_rowid, engine_open, engine_open_in_memory, engine_query, engine_set_key, get_int,
    get_opt_int, get_opt_text, get_text, SqlRow, SqlValue,
};
use crate::text::{concat_str, decimal, decimal_digits};

pub mod observations;
pub mod search;
mod sessions;
pub mod timeline;
pub mod purge;
pub mod codegraph;
pub mod entities;
mod embeddings;
pub mod export;
mod vecindex;

use self::codegraph::{decimal_i64, spec_decimal_i64};

verus! {

/// Result type for store operations.
pub type DbResult<T> = Result<T, IgrisError>;

/// Saves with identical content within this many minutes count as
/// duplicates instead of new entries.
pub const DEDUPE_WINDOW_MINUTES: u64 = 15;

/// Results returned by default.
pub const DEFAULT_LIMIT: i64 = 20;

/// Results returned at most.
pub const MAX_LIMIT: i64 = 50;

/// The store: one SQLite connection, the vector backend choice, and the
/// record of every write the engine has carried out through it.
pub struct Database {
    conn: rusqlite::Connection,
    vector_index: bool,
    writes: Ghost<Seq<StoreWrite>>,
    reads: Ghost<Seq<StoreRead>>,
}

/// A lookup whose answer decided what the store did next: the statement
/// text, its parameters, and the rows the engine answered.
pub struct StoreRead {
    pub sql: Seq<char>,
    pub params: Seq<SqlValue>,
    pub rows: Seq<Seq<SqlValue>>,
}

/// The cells of a list of rows.
pub open spec fn rows_view(rows: Seq<SqlRow>) -> Seq<Seq<SqlValue>> {
    rows.map_values(|row: SqlRow| row@)
}

/// The integer in the first column of the first answered row, if any.
pub open spec fn first_int(rows: Seq<Seq<SqlValue>>) -> Option<i64> {
    if rows.len() == 0 {
        None
    } else {
        crate::sql::cell_opt_int(rows[0], 0)
    }
}

/// A write the store handed to the engine and the engine carried out: the
/// statement text, its parameters, and how many rows the engine reported
/// changed (0 for a batch).
pub struct StoreWrite {
    pub sql: Seq<char>,
    pub params: Seq<SqlValue>,
    pub changed: nat,
}

/// `new` is `old` followed by one write of `sql` whose parameters are a
/// time stamp (text) and then the integer `id`.
pub open spec fn stamped_once(old: Seq<StoreWrite>, new: Seq<StoreWrite>, sql: Seq<char>, id: i64) -> bool {
    &&& new.len() == old.len() + 1
    &&& new == old.push(new.last())
    &&& new.last().sql == sql
    &&& new.last().params.len() == 2
    &&& new.last().params[0] is Text
    &&& param_int(new.last().params[1], id)
}

/// The parameters of a stamped update of row `id`: the time, then the id.
pub fn stamp_params(now: String, id: i64) -> (r: Vec<SqlValue>)
    ensures
        r@.len() == 2,
        param_text(r@[0], now@),
        param_int(r@[1], id),
{
    vec![SqlValue::Text(now), SqlValue::Integer(id)]
}

/// Adds the entity-review column to observations.
pub const ADD_REVIEW_COLUMN: &'static str = "ALTER TABLE observations ADD COLUMN entities_reviewed_at TEXT;";

/// The schema steps, oldest first.
pub open spec fn schema_steps() -> Seq<Seq<char>> {
    seq![SCHEMA_V1@, SCHEMA_V2@, SCHEMA_V3@, SCHEMA_V4@, SCHEMA_V5@]
}

/// The statement that stamps the current schema version.
pub open spec fn version_stamp_sql() -> Seq<char> {
    "PRAGMA user_version = "@ + decimal_digits(SCHEMA_VERSION as nat) + ";"@
}

/// A batch write of `sql`.
pub open spec fn batch_write(sql: Seq<char>) -> StoreWrite {
    write_of(sql, Seq::empty(), 0)
}

/// The writes that open a store found at schema version `v`: the pragmas,
/// every schema step after `v` in order, the entity-review column where it
/// is missing (`alter`), and the version stamp where `v` is older than the
/// current one.
pub open spec fn init_writes_from(ws: Seq<StoreWrite>, v: int, alter: bool) -> bool {
    let done: int = if v < 0 { 0 } else if v > 5 { 5 } else { v };
    ws == seq![batch_write(PRAGMAS@)] + schema_steps().skip(done).map_values(|q: Seq<char>| batch_write(q)) + (if alter {
        seq![batch_write(ADD_REVIEW_COLUMN@)]
    } else {
        Seq::empty()
    }) + (if v < SCHEMA_VERSION { seq![batch_write(version_stamp_sql())] } else { Seq::empty() })
}

/// The batch write of a schema step where it is missing.
pub open spec fn step_if(missing: bool, sql: Seq<char>) -> Seq<StoreWrite> {
    if missing { seq![batch_write(sql)] } else { Seq::empty() }
}

/// The schema steps missing at version `v` are those after it.
proof fn lemma_schema_steps(v: int)
    ensures
        step_if(v < 1, SCHEMA_V1@) + step_if(v < 2, SCHEMA_V2@) + step_if(v < 3, SCHEMA_V3@) + step_if(v < 4, SCHEMA_V4@)
            + step_if(v < 5, SCHEMA_V5@) == schema_steps().skip(if v < 0 { 0 } else if v > 5 { 5 } else { v }).map_values(
            |q: Seq<char>| batch_write(q),
        ),
{
    let done: int = if v < 0 { 0 } else if v > 5 { 5 } else { v };
    let lhs = step_if(v < 1, SCHEMA_V1@) + step_if(v < 2, SCHEMA_V2@) + step_if(v < 3, SCHEMA_V3@) + step_if(v < 4, SCHEMA_V4@)
        + step_if(v < 5, SCHEMA_V5@);
    let rhs = schema_steps().skip(done).map_values(|q: Seq<char>| batch_write(q));
    assert(lhs =~= rhs);
}

/// `ws` opens a store at some schema version.
pub open spec fn init_writes(ws: Seq<StoreWrite>) -> bool {
    exists|v: int, alter: bool| #[trigger] init_writes_from(ws, v, alter)
}

/// The write of one statement with its parameters and changed-row count.
pub open spec fn write_of(sql: Seq<char>, params: Seq<SqlValue>, changed: nat) -> StoreWrite {
    StoreWrite { sql, params, changed }
}

/// A store error from an engine error.
pub fn db_err(e: rusqlite::Error) -> (r: IgrisError)
    ensures
        r.code == ErrorCode::DatabaseError,
{
    IgrisError::database(engine_error_message(&e))
}

/// The optional text of an `Option<String>`.
pub open spec fn opt_view(o: Option<String>) -> Option<Seq<char>> {
    match o {
        Some(s) => Some(s@),
        None => None,
    }
}

/// The optional list of a tags field.
pub open spec fn tags_view(o: Option<Vec<String>>) -> Option<Seq<Seq<char>>> {
    match o {
        Some(v) => Some(strings_view(v@)),
        None => None,
    }
}

/// A 32-bit column: the stored integer when it fits, else `d`.
pub open spec fn cell_i32(row: Seq<SqlValue>, i: int, d: i32) -> i32 {
    if 0 <= i < row.len() && row[i] is Integer && i32::MIN <= row[i]->Integer_0 <= i32::MAX {
        row[i]->Integer_0 as i32
    } else {
        d
    }
}

/// Reads a 32-bit column with a default.
pub fn get_i32(row: &SqlRow, i: usize, d: i32) -> (r: i32)
    ensures
        r == cell_i32(row@, i as int, d),
{
    if i < row.len() {
        match &row[i] {
            SqlValue::Integer(v) => {
                if i32::MIN as i64 <= *v && *v <= i32::MAX as i64 {
                    *v as i32
                } else {
                    d
                }
            },
            _ => d,
        }
    } else {
        d
    }
}

/// The tags stored as JSON text in column `i`.
pub open spec fn cell_tags(row: Seq<SqlValue>, i: int) -> Option<Seq<Seq<char>>> {
    match cell_text(row, i) {
        Some(t) => json_string_array(t),
        None => None,
    }
}

/// `o` is what the observation columns of `row` hold, in the order
/// id, session_id, type, title, content, project, scope, topic_key, tags,
/// revision_count, duplicate_count, created_at, updated_at, deleted_at;
/// a missing or mistyped column reads as its default.
pub open spec fn decodes_observation(o: Observation, row: Seq<SqlValue>) -> bool {
    &&& o.id == cell_int(row, 0, 0)
    &&& opt_view(o.session_id) == cell_text(row, 1)
    &&& o.observation_type@ == cell_text_or_empty(row, 2)
    &&& o.title@ == cell_text_or_empty(row, 3)
    &&& o.content@ == cell_text_or_empty(row, 4)
    &&& opt_view(o.project) == cell_text(row, 5)
    &&& o.scope@ == cell_text_or_empty(row, 6)
    &&& opt_view(o.topic_key) == cell_text(row, 7)
    &&& tags_view(o.tags) == cell_tags(row, 8)
    &&& o.revision_count == cell_i32(row, 9, 1)
    &&& o.duplicate_count == cell_i32(row, 10, 1)
    &&& o.created_at@ == cell_text_or_empty(row, 11)
    &&& o.updated_at@ == cell_text_or_empty(row, 12)
    &&& opt_view(o.deleted_at) == cell_text(row, 13)
}

/// Decodes the observation columns of a row.
pub fn observation_from_row(row: &SqlRow) -> (o: Observation)
    ensures
        decodes_observation(o, row@),
{
    let tags = match get_opt_text(row, 8) {
        Some(t) => parse_string_array(t.as_str()),
        None => None,
    };
    Observation {
        id: get_int(row, 0, 0),
        session_id: get_opt_text(row, 1),
        observation_type: get_text(row, 2),
        title: get_text(row, 3),
        content: get_text(row, 4),
        project: get_opt_text(row, 5),
        scope: get_text(row, 6),
        topic_key: get_opt_text(row, 7),
        tags,
        revision_count: get_i32(row, 9, 1),
        duplicate_count: get_i32(row, 10, 1),
        created_at: get_text(row, 11),
        updated_at: get_text(row, 12),
        deleted_at: get_opt_text(row, 13),
    }
}

/// `o` is the decoding of one of `rows`.
pub open spec fn decoded_from_some_row(o: Observation, rows: Seq<SqlRow>) -> bool {
    exists|j: int| 0 <= j < rows.len() && decodes_observation(o, #[trigger] rows[j]@)
}

/// The columns every observation query selects, in decoding order.
pub const OBSERVATION_COLS: &'static str = "id, session_id, type, title, content, project, scope, \
     topic_key, tags, revision_count, duplicate_count, created_at, updated_at, deleted_at";

/// The message the engine gives for a single-row query that found nothing.
pub const NO_ROWS_MESSAGE: &'static str = "Query returned no rows";

/// The effective result cap: `limit` or the default, at most the maximum.
pub open spec fn effective_limit(limit: Option<i64>, default: i64) -> i64 {
    let l = match limit {
        Some(n) => n,
        None => default,
    };
    if l < MAX_LIMIT { l } else { MAX_LIMIT }
}

/// Computes the effective result cap.
pub fn cap_limit(limit: Option<i64>, default: i64) -> (r: i64)
    ensures
        r == effective_limit(limit, default),
{
    let l = match limit {
        Some(n) => n,
        None => default,
    };
    if l < MAX_LIMIT { l } else { MAX_LIMIT }
}

/// The items of `v` in reverse order.
pub fn reversed<T>(v: Vec<T>) -> (r: Vec<T>)
    ensures
        r@ == v@.reverse(),
{
    let mut v = v;
    let ghost orig = v@;
    let mut out: Vec<T> = Vec::new();
    while v.len() > 0
        invariant
            orig == v@ + out@.reverse(),
        decreases v.len(),
    {
        let ghost before_v = v@;
        let ghost before_out = out@;
        let x = v.pop().unwrap();
        out.push(x);
        proof {
            assert(before_v == v@.push(x));
            assert(out@.reverse() =~= seq![x] + before_out.reverse());
            assert(orig =~= v@ + out@.reverse());
        }
    }
    assert(out@.reverse().reverse() =~= out@);
    assert(orig =~= out@.reverse());
    out
}

/// The message of a delete that found nothing to delete:
/// `<kind> <id> not found or already deleted`.
pub open spec fn spec_not_deleted_message(kind: Seq<char>, id: i64) -> Seq<char> {
    kind + " "@ + spec_decimal_i64(id) + " not found or already deleted"@
}

/// The answer to a delete request, from what the store reported: done when
/// a record was deleted; `NotFound`, naming the record, when it was missing
/// or already deleted; an engine failure passes through unchanged.
pub fn delete_answer(kind: &str, id: i64, outcome: DbResult<bool>) -> (r: DbResult<()>)
    ensures
        outcome == Ok::<bool, IgrisError>(true) ==> r is Ok,
        outcome == Ok::<bool, IgrisError>(false) ==> (r matches Err(e) && e.code == ErrorCode::NotFound
            && e.error@ == spec_not_deleted_message(kind@, id)),
        outcome matches Err(e0) ==> r == Err::<(), IgrisError>(e0),
{
    match outcome {
        Ok(true) => Ok(()),
        Ok(false) => {
            let head = concat_str(kind, " ");
            let named = concat_str(head.as_str(), decimal_i64(id).as_str());
            let msg = concat_str(named.as_str(), " not found or already deleted");
            Err(IgrisError::not_found(msg))
        },
        Err(e) => Err(e),
    }
}

impl Database {
    /// Opens (or creates) the database at `path` and brings its schema up
    /// to date. With a `key`, the key is handed to the engine first.
    pub fn open(path: &str, key: Option<&str>) -> (r: DbResult<Self>)
        ensures
            r matches Ok(db) ==> !db.vector_index(),
    {
        Self::open_with(path, key, false)
    }

    /// Opens (or creates) the database at `path`, selecting the vector
    /// search backend (`false` = brute force, `true` = vector index).
    pub fn open_with(path: &str, key: Option<&str>, vector_index: bool) -> (r: DbResult<Self>)
        ensures
            r matches Ok(db) ==> db.vector_index() == vector_index,
            r matches Err(e) ==> e.code == ErrorCode::DatabaseError,
            r matches Ok(db) ==> init_writes(db.log()),
    {
        let conn = match engine_open(path) {
            Ok(c) => c,
            Err(e) => return Err(db_err(e)),
        };
        if let Some(k) = key {
            if let Err(e) = engine_set_key(&conn, k) {
                return Err(db_err(e));
            }
        }
        let mut db = Database { conn, vector_index, writes: Ghost(Seq::empty()), reads: Ghost(Seq::empty()) };
        db.init()?;
        Ok(db)
    }

    /// Opens a fresh in-memory database with the brute-force vector backend.
    pub fn open_in_memory() -> (r: DbResult<Self>)
        ensures
            r matches Ok(db) ==> !db.vector_index(),
            r matches Err(e) ==> e.code == ErrorCode::DatabaseError,
    {
        Self::open_in_memory_with(false)
    }

    /// Opens a fresh in-memory database with the vector index enabled.
    pub fn open_in_memory_vec() -> (r: DbResult<Self>)
        ensures
            r matches Ok(db) ==> db.vector_index(),
            r matches Err(e) ==> e.code == ErrorCode::DatabaseError,
    {
        Self::open_in_memory_with(true)
    }

    fn open_in_memory_with(vector_index: bool) -> (r: DbResult<Self>)
        ensures
            r matches Ok(db) ==> db.vector_index() == vector_index,
            r matches Err(e) ==> e.code == ErrorCode::DatabaseError,
            r matches Ok(db) ==> init_writes(db.log()),
    {
        let conn = match engine_open_in_memory() {
            Ok(c) => c,
            Err(e) => return Err(db_err(e)),
        };
        let mut db = Database { conn, vector_index, writes: Ghost(Seq::empty()), reads: Ghost(Seq::empty()) };
        db.init()?;
        Ok(db)
    }

    /// Whether the vector index backend is selected.
    pub closed spec fn vector_index(&self) -> bool {
        self.vector_index
    }

    /// Every write the engine has carried out through this store, in order.
    pub closed spec fn log(&self) -> Seq<StoreWrite> {
        self.writes@
    }

    /// The deciding lookups made so far, in order.
    pub closed spec fn lookups(&self) -> Seq<StoreRead> {
        self.reads@
    }

    /// Whether the vector index backend is selected.
    pub fn uses_vector_index(&self) -> (r: bool)
        ensures
            r == self.vector_index(),
    {
        self.vector_index
    }

    /// The underlying connection, for the engine features the store does
    /// not wrap (vector search over real-valued embeddings).
    pub fn connection(&self) -> (r: &rusqlite::Connection)
        ensures
            *r == self.engine(),
    {
        &self.conn
    }

    /// The connection the store runs its statements on.
    pub closed spec fn engine(&self) -> rusqlite::Connection {
        self.conn
    }

    /// Applies the pragmas and every schema step the database lacks (and the
    /// entity-review column of observations), then stamps the schema version.
    #[verifier::spinoff_prover]
    #[verifier::rlimit(100)]
    fn init(&mut self) -> (r: DbResult<()>)
        ensures
            r matches Err(e) ==> e.code == ErrorCode::DatabaseError,
            final(self).vector_index() == old(self).vector_index(),
            r is Ok ==> final(self).log().len() >= old(self).log().len() && final(self).log() == old(self).log()
                + final(self).log().skip(old(self).log().len() as int) && init_writes(
                final(self).log().skip(old(self).log().len() as int),
            ),
    {
        let ghost start = self.log();
        self.batch(PRAGMAS)?;
        let rows = self.query("PRAGMA user_version", &[])?;
        let version: i64 = if rows.len() > 0 { get_int(&rows[0], 0, 0) } else { 0 };
        let ghost after_pragmas = self.log();
        self.apply_step(version < 1, SCHEMA_V1)?;
        let ghost l1 = self.log();
        self.apply_step(version < 2, SCHEMA_V2)?;
        let ghost l2 = self.log();
        self.apply_step(version < 3, SCHEMA_V3)?;
        let ghost l3 = self.log();
        self.apply_step(version < 4, SCHEMA_V4)?;
        let ghost l4 = self.log();
        self.apply_step(version < 5, SCHEMA_V5)?;
        let ghost after_steps = self.log();
        proof {
            lemma_schema_steps(version as int);
            assert(after_steps =~= start + (seq![batch_write(PRAGMAS@)] + (step_if(version < 1, SCHEMA_V1@) + step_if(
                version < 2,
                SCHEMA_V2@,
            ) + step_if(version < 3, SCHEMA_V3@) + step_if(version < 4, SCHEMA_V4@) + step_if(version < 5, SCHEMA_V5@))));
        }
        let review_column = self.query_int(
            "SELECT COUNT(*) FROM pragma_table_info('observations') WHERE name = 'entities_reviewed_at'",
            &[],
        )?;
        if review_column == 0 {
            self.batch(ADD_REVIEW_COLUMN)?;
        }
        let ghost after_alter = self.log();
        if version < SCHEMA_VERSION as i64 {
            let head = concat_str("PRAGMA user_version = ", decimal(SCHEMA_VERSION as u64).as_str());
            let stmt = concat_str(head.as_str(), ";");
            self.batch(stmt.as_str())?;
        }
        proof {
            let ws = self.log().skip(start.len() as int);
            assert(self.log() =~= start + ws);
            let done: int = if version < 0 { 0 } else if version > 5 { 5 } else { version as int };
            let alter_part: Seq<StoreWrite> = if review_column == 0 {
                seq![batch_write(ADD_REVIEW_COLUMN@)]
            } else {
                Seq::empty()
            };
            let stamp_part: Seq<StoreWrite> = if version < SCHEMA_VERSION {
                seq![batch_write(version_stamp_sql())]
            } else {
                Seq::empty()
            };
            assert(after_alter =~= after_steps + alter_part);
            assert(self.log() =~= after_alter + stamp_part);
            assert(ws =~= seq![batch_write(PRAGMAS@)] + schema_steps().skip(done).map_values(|q: Seq<char>| batch_write(q))
                + alter_part + stamp_part);
            assert(init_writes_from(ws, version as int, review_column == 0));
        }
        Ok(())
    }

    /// Runs one schema step where it is `missing`.
    fn apply_step(&mut self, missing: bool, sql: &str) -> (r: DbResult<()>)
        ensures
            r matches Err(e) ==> e.code == ErrorCode::DatabaseError,
            final(self).vector_index() == old(self).vector_index(),
            r is Ok ==> final(self).log() == old(self).log() + step_if(missing, sql@),
    {
        if missing {
            self.batch(sql)?;
            proof {
                assert(self.log() =~= old(self).log() + step_if(missing, sql@));
            }
        } else {
            proof {
                assert(self.log() =~= old(self).log() + step_if(missing, sql@));
            }
        }
        Ok(())
    }

    /// Runs a batch of statements; a batch that ran is recorded with no
    /// parameters and no changed-row count.
    pub fn batch(&mut self, sql: &str) -> (r: DbResult<()>)
        ensures
            r matches Err(e) ==> e.code == ErrorCode::DatabaseError && final(self).log() == old(self).log(),
            r is Ok ==> final(self).log() == old(self).log().push(write_of(sql@, Seq::empty(), 0)),
            final(self).vector_index() == old(self).vector_index(),
            final(self).lookups() == old(self).lookups(),
    {
        match engine_execute_batch(&self.conn, sql) {
            Ok(()) => {
                proof {
                    self.writes@ = self.writes@.push(write_of(sql@, Seq::empty(), 0));
                }
                Ok(())
            },
            Err(e) => Err(db_err(e)),
        }
    }

    /// Runs one statement; the number of changed rows. A statement that ran
    /// is recorded with its parameters and that count.
    pub fn exec(&mut self, sql: &str, params: &[SqlValue]) -> (r: DbResult<usize>)
        ensures
            r matches Err(e) ==> e.code == ErrorCode::DatabaseError && final(self).log() == old(self).log(),
            r matches Ok(n) ==> final(self).log() == old(self).log().push(write_of(sql@, params@, n as nat)),
            final(self).vector_index() == old(self).vector_index(),
            final(self).lookups() == old(self).lookups(),
    {
        match engine_execute(&self.conn, sql, params) {
            Ok(n) => {
                proof {
                    self.writes@ = self.writes@.push(write_of(sql@, params@, n as nat));
                }
                Ok(n)
            },
            Err(e) => Err(db_err(e)),
        }
    }

    /// Runs one query; its rows.
    pub fn query(&self, sql: &str, params: &[SqlValue]) -> (r: DbResult<Vec<SqlRow>>)
        ensures
            r matches Err(e) ==> e.code == ErrorCode::DatabaseError,
    {
        match engine_query(&self.conn, sql, params) {
            Ok(rows) => Ok(rows),
            Err(e) => Err(db_err(e)),
        }
    }

    /// Runs a deciding lookup, which is recorded with the rows the engine
    /// answered (none where the engine failed); those rows.
    pub fn lookup_rows(&mut self, sql: &str, params: &[SqlValue]) -> (r: DbResult<Vec<SqlRow>>)
        ensures
            r matches Err(e) ==> e.code == ErrorCode::DatabaseError,
            final(self).log() == old(self).log(),
            final(self).vector_index() == old(self).vector_index(),
            final(self).lookups() == old(self).lookups().push(
                StoreRead {
                    sql: sql@,
                    params: params@,
                    rows: match r {
                        Ok(v) => rows_view(v@),
                        Err(_) => Seq::empty(),
                    },
                },
            ),
    {
        let r = self.query(sql, params);
        let ghost answered = match &r {
            Ok(v) => rows_view(v@),
            Err(_) => Seq::empty(),
        };
        proof {
            self.reads@ = self.reads@.push(StoreRead { sql: sql@, params: params@, rows: answered });
        }
        r
    }

    /// Runs a deciding lookup, which is recorded with its answer; the
    /// integer in the first column of the first row, if any row came back.
    pub fn lookup_int(&mut self, sql: &str, params: &[SqlValue]) -> (r: DbResult<Option<i64>>)
        ensures
            r matches Err(e) ==> e.code == ErrorCode::DatabaseError,
            final(self).log() == old(self).log(),
            final(self).vector_index() == old(self).vector_index(),
            r matches Ok(v) ==> exists|rows: Seq<Seq<SqlValue>>| #[trigger] first_int(rows) == v && final(self).lookups()
                == old(self).lookups().push(StoreRead { sql: sql@, params: params@, rows }),
    {
        let rows = self.query(sql, params)?;
        let ghost answered = rows@.map_values(|row: SqlRow| row@);
        proof {
            self.reads@ = self.reads@.push(StoreRead { sql: sql@, params: params@, rows: answered });
        }
        let v = if rows.len() == 0 {
            None
        } else {
            get_opt_int(&rows[0], 0)
        };
        proof {
            if rows@.len() > 0 {
                assert(answered[0] == rows@[0]@);
            }
            assert(first_int(answered) == v);
        }
        Ok(v)
    }

    /// The integer in the first column of the first row, if any row came back.
    pub fn query_opt_int(&self, sql: &str, params: &[SqlValue]) -> (r: DbResult<Option<i64>>)
        ensures
            r matches Err(e) ==> e.code == ErrorCode::DatabaseError,
    {
        let rows = self.query(sql, params)?;
        if rows.len() == 0 {
            Ok(None)
        } else {
            Ok(get_opt_int(&rows[0], 0))
        }
    }

    /// The integer in the first column of the only expected row; an error
    /// when no row came back.
    pub fn query_int(&self, sql: &str, params: &[SqlValue]) -> (r: DbResult<i64>)
        ensures
            r matches Err(e) ==> e.code == ErrorCode::DatabaseError,
    {
        let rows = self.query(sql, params)?;
        if rows.len() == 0 {
            Err(IgrisError::database(String::from_str(NO_ROWS_MESSAGE)))
        } else {
            Ok(get_int(&rows[0], 0, 0))
        }
    }

    /// The rowid of the most recent successful INSERT.
    pub fn last_insert_rowid(&self) -> i64 {
        engine_last_insert_rowid(&self.conn)
    }

    /// The current UTC time as the engine reports it, `YYYY-MM-DDTHH:MM:SSZ`.
    pub fn now_utc(&self) -> (r: DbResult<String>)
        ensures
            r matches Err(e) ==> e.code == ErrorCode::DatabaseError,
    {
        let rows = self.query("SELECT strftime('%Y-%m-%dT%H:%M:%SZ', 'now')", &[])?;
        if rows.len() == 0 {
            Err(IgrisError::database(String::from_str(NO_ROWS_MESSAGE)))
        } else {
            Ok(get_text(&rows[0], 0))
        }
    }

    /// Decodes every row as an observation, keeping only those not
    /// soft-deleted and, when `n` is not negative, at most `n` of them (a
    /// negative cap, like the engine's negative LIMIT, means no cap): the
    /// first live rows, in order.
    pub fn live_observations(rows: &Vec<SqlRow>, n: i64) -> (r: Vec<Observation>)
        ensures
            live_decoded(r@, rows@, n),
            r@.len() == capped_len(live_rows(rows@, 13).len(), n),
            forall|k: int| 0 <= k < r@.len() ==> decodes_observation(#[trigger] r@[k], live_rows(rows@, 13)[k]@),
            r@.len() <= rows@.len(),
            n >= 0 ==> r@.len() <= n,
            forall|k: int| 0 <= k < r@.len() ==> (#[trigger] r@[k]).deleted_at is None,
            forall|k: int| 0 <= k < r@.len() ==> decoded_from_some_row(#[trigger] r@[k], rows@),
    {
        let ghost p = live_pred(13);
        let mut out: Vec<Observation> = Vec::new();
        let mut i: usize = 0;
        proof {
            assert(rows@.take(0) =~= Seq::<SqlRow>::empty());
            reveal(Seq::filter);
        }
        while i < rows.len() && (n < 0 || (out.len() as u64) < (n as u64))
            invariant
                i <= rows.len(),
                p == live_pred(13),
                out@.len() == rows@.take(i as int).filter(p).len(),
                forall|k: int| 0 <= k < out@.len() ==> decodes_observation(#[trigger] out@[k], rows@.take(i as int).filter(p)[k]@),
                out@.len() <= i,
                n >= 0 ==> out@.len() <= n,
                forall|k: int| 0 <= k < out@.len() ==> (#[trigger] out@[k]).deleted_at is None,
                forall|k: int| 0 <= k < out@.len() ==> decoded_from_some_row(#[trigger] out@[k], rows@),
            decreases rows.len() - i,
        {
            proof {
                lemma_filter_take_step(rows@, p, i as int);
            }
            let o = observation_from_row(&rows[i]);
            if o.deleted_at.is_none() {
                proof {
                    assert(decodes_observation(o, rows@[i as int]@));
                }
                out.push(o);
            }
            i += 1;
        }
        proof {
            lemma_filter_take_prefix(rows@, p, i as int);
            if i == rows.len() {
                assert(rows@.take(i as int) =~= rows@);
            }
        }
        out
    }
}

/// The rows whose column `col` holds no text (the live ones, for a
/// `deleted_at` column).
pub open spec fn live_pred(col: int) -> spec_fn(SqlRow) -> bool {
    |row: SqlRow| cell_text(row@, col) is None
}

/// The live rows of `rows`, in order.
pub open spec fn live_rows(rows: Seq<SqlRow>, col: int) -> Seq<SqlRow> {
    rows.filter(live_pred(col))
}

/// `v` is the first `n` live rows of `rows` (all with a negative `n`), in
/// order, each decoded as an observation.
pub open spec fn live_decoded(v: Seq<Observation>, rows: Seq<SqlRow>, n: i64) -> bool {
    &&& v.len() == capped_len(live_rows(rows, 13).len(), n)
    &&& forall|k: int| 0 <= k < v.len() ==> decodes_observation(#[trigger] v[k], live_rows(rows, 13)[k]@)
}

/// How many of `len` items a cap of `n` keeps (a negative cap keeps all).
pub open spec fn capped_len(len: nat, n: i64) -> nat {
    if n < 0 || len <= n { len } else { n as nat }
}

/// Filtering a prefix one item longer adds that item when it passes.
pub proof fn lemma_filter_take_step<A>(s: Seq<A>, p: spec_fn(A) -> bool, i: int)
    requires
        0 <= i < s.len(),
    ensures
        s.take(i + 1).filter(p) == (if p(s[i]) { s.take(i).filter(p).push(s[i]) } else { s.take(i).filter(p) }),
{
    reveal(Seq::filter);
    assert(s.take(i + 1).drop_last() =~= s.take(i));
    assert(s.take(i + 1).last() == s[i]);
}

/// Filtering a prefix gives a prefix of the filtered whole.
pub proof fn lemma_filter_take_prefix<A>(s: Seq<A>, p: spec_fn(A) -> bool, i: int)
    requires
        0 <= i <= s.len(),
    ensures
        s.take(i).filter(p).len() <= s.filter(p).len(),
        forall|k: int| 0 <= k < s.take(i).filter(p).len() ==> s.take(i).filter(p)[k] == s.filter(p)[k],
    decreases s.len() - i,
{
    if i == s.len() {
        assert(s.take(i) =~= s);
    } else {
        lemma_filter_take_prefix(s, p, i + 1);
        lemma_filter_take_step(s, p, i);
    }
}

} // verus!
