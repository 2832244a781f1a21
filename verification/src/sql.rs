//! The storage engine boundary: values exchanged with SQLite and the few
//! engine calls the store makes.

use vstd::prelude::*;

verus! {

/// A value bound to, or read from, a SQL statement. Real numbers travel as
/// their shortest decimal text: the store never computes with them, and
/// the engine stores such text in a REAL column as the number it spells.
#[derive(Debug, Clone, PartialEq)]
pub enum SqlValue {
    Null,
    Integer(i64),
    Real(String),
    Text(String),
    Blob(Vec<u8>),
}

/// One result row.
pub type SqlRow = Vec<SqlValue>;

#[verifier::external_type_specification]
#[verifier::external_body]
pub struct ExConnection(rusqlite::Connection);

#[verifier::external_type_specification]
#[verifier::external_body]
pub struct ExSqlError(rusqlite::Error);

#[verifier::external_type_specification]
#[verifier::external_body]
pub struct ExEngineValue(rusqlite::types::Value);

/// Converts a store value to the engine's value type: each variant to its
/// namesake, except a real, which travels as its decimal text (the engine
/// stores such text in a REAL column as the number it spells).
#[verifier::external_body]
fn to_engine_value(v: &SqlValue) -> rusqlite::types::Value {
    match v {
        SqlValue::Null => rusqlite::types::Value::Null,
        SqlValue::Integer(i) => rusqlite::types::Value::Integer(*i),
        SqlValue::Real(t) => rusqlite::types::Value::Text(t.clone()),
        SqlValue::Text(s) => rusqlite::types::Value::Text(s.clone()),
        SqlValue::Blob(b) => rusqlite::types::Value::Blob(b.clone()),
    }
}

/// Converts an engine value to a store value, variant for variant.
#[verifier::external_body]
fn from_engine_value(v: rusqlite::types::Value) -> SqlValue {
    match v {
        rusqlite::types::Value::Null => SqlValue::Null,
        rusqlite::types::Value::Integer(i) => SqlValue::Integer(i),
        rusqlite::types::Value::Real(x) => SqlValue::Real(x.to_string()),
        rusqlite::types::Value::Text(s) => SqlValue::Text(s),
        rusqlite::types::Value::Blob(b) => SqlValue::Blob(b),
    }
}

/// `rusqlite::Connection::open`: opens (creating if needed) the database
/// file at `path`. What it returns depends on the file system.
#[verifier::external_body]
pub(crate) fn engine_open(path: &str) -> Result<rusqlite::Connection, rusqlite::Error> {
    rusqlite::Connection::open(path)
}

/// `rusqlite::Connection::open_in_memory`: a fresh private in-memory database.
#[verifier::external_body]
pub(crate) fn engine_open_in_memory() -> Result<rusqlite::Connection, rusqlite::Error> {
    rusqlite::Connection::open_in_memory()
}

/// `rusqlite::Connection::pragma_update` of `key`: hands the encryption key
/// to the engine, which encrypts the database with it (SQLCipher).
#[verifier::external_body]
pub(crate) fn engine_set_key(conn: &rusqlite::Connection, key: &str) -> Result<(), rusqlite::Error> {
    conn.pragma_update(None, "key", key)
}

/// `rusqlite::Connection::execute_batch`: runs the statements in `sql`.
/// Nothing is claimed of the outcome, which depends on the database.
#[verifier::external_body]
pub(crate) fn engine_execute_batch(conn: &rusqlite::Connection, sql: &str) -> Result<(), rusqlite::Error> {
    conn.execute_batch(sql)
}

/// `rusqlite::Connection::execute`: runs one statement with positional
/// parameters and returns the number of rows it changed. Nothing is
/// claimed of the outcome, which depends on the database.
#[verifier::external_body]
pub(crate) fn engine_execute(conn: &rusqlite::Connection, sql: &str, params: &[SqlValue]) -> Result<usize, rusqlite::Error> {
    conn.execute(sql, rusqlite::params_from_iter(params.iter().map(to_engine_value)))
}

/// `rusqlite::Statement::query_map` over a prepared `sql`: every result row,
/// each as its column values in order. Nothing is claimed of the rows,
/// which depend on the database.
#[verifier::external_body]
pub(crate) fn engine_query(conn: &rusqlite::Connection, sql: &str, params: &[SqlValue]) -> Result<Vec<SqlRow>, rusqlite::Error> {
    let mut stmt = conn.prepare(sql)?;
    let n = stmt.column_count();
    let rows = stmt.query_map(rusqlite::params_from_iter(params.iter().map(to_engine_value)), |r| {
        (0..n).map(|i| r.get::<usize, rusqlite::types::Value>(i).map(from_engine_value)).collect()
    })?;
    rows.collect()
}

/// `rusqlite::Connection::last_insert_rowid`: the rowid of the most recent
/// successful INSERT on this connection.
#[verifier::external_body]
pub(crate) fn engine_last_insert_rowid(conn: &rusqlite::Connection) -> i64 {
    conn.last_insert_rowid()
}

/// The engine's message for an error (its `Display`).
#[verifier::external_body]
pub(crate) fn engine_error_message(e: &rusqlite::Error) -> String {
    e.to_string()
}

// ─── Reading cells ───────────────────────────────────────────────

/// The integer in column `i`, or `d` when the column is absent or not an integer.
pub open spec fn cell_int(row: Seq<SqlValue>, i: int, d: i64) -> i64 {
    if 0 <= i < row.len() && row[i] is Integer {
        row[i]->Integer_0
    } else {
        d
    }
}

/// The text in column `i`, or `None` when the column is absent or not text.
pub open spec fn cell_text(row: Seq<SqlValue>, i: int) -> Option<Seq<char>> {
    if 0 <= i < row.len() && row[i] is Text {
        Some(row[i]->Text_0@)
    } else {
        None
    }
}

/// The text in column `i`, or the empty text.
pub open spec fn cell_text_or_empty(row: Seq<SqlValue>, i: int) -> Seq<char> {
    match cell_text(row, i) {
        Some(t) => t,
        None => Seq::empty(),
    }
}

/// The integer in column `i`, if it holds one.
pub open spec fn cell_opt_int(row: Seq<SqlValue>, i: int) -> Option<i64> {
    if 0 <= i < row.len() && row[i] is Integer {
        Some(row[i]->Integer_0)
    } else {
        None
    }
}

/// The decimal text of the real in column `i`, if it holds one.
pub open spec fn cell_real(row: Seq<SqlValue>, i: int) -> Option<Seq<char>> {
    if 0 <= i < row.len() && row[i] is Real {
        Some(row[i]->Real_0@)
    } else {
        None
    }
}

/// Reads an integer column with a default.
pub fn get_int(row: &SqlRow, i: usize, d: i64) -> (r: i64)
    ensures
        r == cell_int(row@, i as int, d),
{
    if i < row.len() {
        match &row[i] {
            SqlValue::Integer(v) => *v,
            _ => d,
        }
    } else {
        d
    }
}

/// Reads an optional integer column.
pub fn get_opt_int(row: &SqlRow, i: usize) -> (r: Option<i64>)
    ensures
        r == cell_opt_int(row@, i as int),
{
    if i < row.len() {
        match &row[i] {
            SqlValue::Integer(v) => Some(*v),
            _ => None,
        }
    } else {
        None
    }
}

/// Reads an optional text column.
pub fn get_opt_text(row: &SqlRow, i: usize) -> (r: Option<String>)
    ensures
        r matches Some(t) ==> cell_text(row@, i as int) == Some(t@),
        r is None ==> cell_text(row@, i as int) is None,
{
    if i < row.len() {
        match &row[i] {
            SqlValue::Text(t) => Some(t.clone()),
            _ => None,
        }
    } else {
        None
    }
}

/// Reads a text column, empty when absent.
pub fn get_text(row: &SqlRow, i: usize) -> (r: String)
    ensures
        r@ == cell_text_or_empty(row@, i as int),
{
    match get_opt_text(row, i) {
        Some(t) => t,
        None => String::new(),
    }
}

/// Reads the decimal text of a real column, or `d` when it holds no real.
pub fn get_real(row: &SqlRow, i: usize, d: &str) -> (r: String)
    ensures
        cell_real(row@, i as int) matches Some(t) ==> r@ == t,
        cell_real(row@, i as int) is None ==> r@ == d@,
{
    if i < row.len() {
        match &row[i] {
            SqlValue::Real(v) => v.clone(),
            _ => String::from_str(d),
        }
    } else {
        String::from_str(d)
    }
}

/// The bytes in column `i`, if it holds a blob.
pub open spec fn cell_blob(row: Seq<SqlValue>, i: int) -> Option<Seq<u8>> {
    if 0 <= i < row.len() && row[i] is Blob {
        Some(row[i]->Blob_0@)
    } else {
        None
    }
}

/// Reads a blob column (empty when the column is absent or not a blob).
pub fn get_blob(row: &SqlRow, i: usize) -> (r: Vec<u8>)
    ensures
        cell_blob(row@, i as int) matches Some(b) ==> r@ == b,
        cell_blob(row@, i as int) is None ==> r@.len() == 0,
{
    if i < row.len() {
        match &row[i] {
            SqlValue::Blob(b) => b.clone(),
            _ => Vec::new(),
        }
    } else {
        Vec::new()
    }
}

// ─── Building parameters ─────────────────────────────────────────

/// A text parameter.
pub fn text(s: &str) -> (v: SqlValue)
    ensures
        v matches SqlValue::Text(t) && t@ == s@,
{
    SqlValue::Text(String::from_str(s))
}

/// `v` is the text parameter `t`.
pub open spec fn param_text(v: SqlValue, t: Seq<char>) -> bool {
    v matches SqlValue::Text(s) && s@ == t
}

/// `v` is the text parameter `t`, or NULL when there is none.
pub open spec fn param_opt_text(v: SqlValue, t: Option<Seq<char>>) -> bool {
    match t {
        Some(x) => param_text(v, x),
        None => v is Null,
    }
}

/// `v` is the integer parameter `n`.
pub open spec fn param_int(v: SqlValue, n: i64) -> bool {
    v == SqlValue::Integer(n)
}

/// The text of an optional string argument.
pub open spec fn opt_str_view(s: Option<&str>) -> Option<Seq<char>> {
    match s {
        Some(x) => Some(x@),
        None => None,
    }
}

/// An optional text parameter (NULL when absent).
pub fn opt_text(s: Option<&str>) -> (v: SqlValue)
    ensures
        s matches Some(x) ==> (v matches SqlValue::Text(t) && t@ == x@),
        s is None ==> v is Null,
{
    match s {
        Some(x) => SqlValue::Text(String::from_str(x)),
        None => SqlValue::Null,
    }
}

} // verus!
