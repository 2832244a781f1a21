use vstd::prelude::*;
use crate::errors::ErrorCode;
use crate::sql::{get_blob, get_int, get_text, param_int, param_text, text, SqlValue};
use crate::text::{concat_str, str_eq};
use super::codegraph::{decimal_i64, spec_decimal_i64};
use super::{write_of, Database, DbResult, StoreWrite};

verus! {

/// The whole 4-byte groups of a blob: the little-endian encoding of the
/// 32-bit floats it holds (a trailing partial group is not a float).
pub open spec fn whole_floats(b: Seq<u8>) -> Seq<u8> {
    b.take((b.len() / 4 * 4) as int)
}

/// The bytes of the whole 4-byte groups of a blob.
pub fn float_bytes(b: &Vec<u8>) -> (r: Vec<u8>)
    ensures
        r@ == whole_floats(b@),
{
    let n: usize = b.len() / 4 * 4;
    let mut out: Vec<u8> = Vec::new();
    let mut i: usize = 0;
    while i < n
        invariant
            n == b@.len() / 4 * 4,
            n <= b@.len(),
            i <= n,
            out@ == b@.take(i as int),
        decreases n - i,
    {
        out.push(b[i]);
        proof {
            assert(b@.take(i as int + 1) =~= b@.take(i as int).push(b@[i as int]));
        }
        i += 1;
    }
    out
}

/// Drops the vector table.
pub const DROP_VEC_TABLE: &'static str = "DROP TABLE IF EXISTS embeddings_vec;";

/// Forgets the recorded dimension and model of the vector table.
pub const CLEAR_VEC_META: &'static str = "DELETE FROM vec_index_meta";

/// Records the dimension and model of the vector table.
pub const SET_VEC_META: &'static str = "INSERT INTO vec_index_meta (id, dim, model) VALUES (1, ?1, ?2)";

/// Stores one observation's vector in the vector table.
pub const UPSERT_VEC: &'static str = "INSERT OR REPLACE INTO embeddings_vec(rowid, embedding) VALUES (?1, ?2)";

/// The statement that creates the vector table for `dim` dimensions.
pub open spec fn vec_table_sql(dim: i64) -> Seq<char> {
    "CREATE VIRTUAL TABLE embeddings_vec USING vec0(embedding float["@ + spec_decimal_i64(dim) + "]);"@
}

/// `ws` makes the vector table ready for `dim` and `model`: nothing, where
/// they are already recorded, or the drop, the creation for `dim`, and the
/// new record.
pub open spec fn vec_ready_writes(ws: Seq<StoreWrite>, dim: i64, model: Seq<char>) -> bool {
    ||| ws.len() == 0
    ||| ws.len() == 4 && ws[0] == write_of(DROP_VEC_TABLE@, Seq::empty(), 0) && ws[1] == write_of(
        vec_table_sql(dim),
        Seq::empty(),
        0,
    ) && ws[2].sql == CLEAR_VEC_META@ && ws[2].params.len() == 0 && ws[3].sql == SET_VEC_META@
        && ws[3].params.len() == 2 && param_int(ws[3].params[0], dim) && param_text(ws[3].params[1], model)
}

impl Database {
    /// Makes sure the vector table holds `dim`-dimensional vectors of
    /// `model`: when the recorded dimension or model differ (or none is
    /// recorded), the table is dropped, created anew for `dim` and the new
    /// pair recorded.
    pub fn vec_index_ensure(&mut self, dim: i64, model: &str) -> (r: DbResult<()>)
        ensures
            r matches Err(e) ==> e.code == ErrorCode::DatabaseError,
            r is Ok ==> final(self).log().len() >= old(self).log().len() && final(self).log() == old(self).log()
                + final(self).log().skip(old(self).log().len() as int) && vec_ready_writes(
                final(self).log().skip(old(self).log().len() as int),
                dim,
                model@,
            ),
    {
        let ghost start = self.log();
        let rows = self.query("SELECT dim, model FROM vec_index_meta WHERE id = 1", &[])?;
        if rows.len() > 0 {
            let d = get_int(&rows[0], 0, 0);
            let m = get_text(&rows[0], 1);
            if d == dim && str_eq(m.as_str(), model) {
                proof {
                    assert(self.log().skip(start.len() as int) =~= Seq::<StoreWrite>::empty());
                    assert(self.log() =~= start + Seq::<StoreWrite>::empty());
                }
                return Ok(());
            }
        }
        self.batch(DROP_VEC_TABLE)?;
        let head = concat_str(
            "CREATE VIRTUAL TABLE embeddings_vec USING vec0(embedding float[",
            decimal_i64(dim).as_str(),
        );
        let create = concat_str(head.as_str(), "]);");
        self.batch(create.as_str())?;
        self.exec(CLEAR_VEC_META, &[])?;
        let params = vec![SqlValue::Integer(dim), text(model)];
        self.exec(SET_VEC_META, params.as_slice())?;
        proof {
            let ws = self.log().skip(start.len() as int);
            assert(self.log() =~= start + ws);
            assert(ws.len() == 4);
            assert(ws[0] == self.log()[start.len() as int]);
        }
        Ok(())
    }

    /// Stores the vector of observation `obs_id`, given as the
    /// little-endian bytes of its 32-bit floats, in the vector table
    /// (made ready for its dimension and `model` first).
    pub fn vec_index_upsert_bytes(&mut self, obs_id: i64, model: &str, vector: &Vec<u8>) -> (r: DbResult<()>)
        requires
            vector@.len() % 4 == 0,
        ensures
            r matches Err(e) ==> e.code == ErrorCode::DatabaseError,
            r is Ok ==> {
                let ws = final(self).log().skip(old(self).log().len() as int);
                &&& final(self).log().len() > old(self).log().len()
                &&& final(self).log() == old(self).log() + ws
                &&& vec_ready_writes(ws.drop_last(), (vector@.len() / 4) as i64, model@)
                &&& ws.last().sql == UPSERT_VEC@ && ws.last().params.len() == 2
                &&& param_int(ws.last().params[0], obs_id)
                &&& (ws.last().params[1] matches SqlValue::Blob(b) && b@ == vector@)
            },
    {
        let ghost start = self.log();
        let dim: i64 = (vector.len() / 4) as i64;
        self.vec_index_ensure(dim, model)?;
        let ghost ready = self.log();
        let params = vec![SqlValue::Integer(obs_id), SqlValue::Blob(vector.clone())];
        self.exec(UPSERT_VEC, params.as_slice())?;
        proof {
            let ws = self.log().skip(start.len() as int);
            assert(self.log() =~= start + ws);
            assert(ws.drop_last() =~= ready.skip(start.len() as int));
        }
        Ok(())
    }

    /// Rebuilds the vector table from the stored embeddings of `model`:
    /// the table and its record are dropped, then every stored observation
    /// vector of the model is added again. The number of vectors added.
    pub fn vec_index_rebuild(&mut self, model: &str) -> (r: DbResult<i64>)
        ensures
            r matches Ok(n) ==> n >= 0,
            r matches Err(e) ==> e.code == ErrorCode::DatabaseError,
            r is Ok ==> final(self).log().len() >= old(self).log().len() + 2 && final(self).log().take(
                old(self).log().len() as int,
            ) == old(self).log() && final(self).log()[old(self).log().len() as int] == write_of(
                DROP_VEC_TABLE@,
                Seq::empty(),
                0,
            ) && final(self).log()[old(self).log().len() + 1int].sql == CLEAR_VEC_META@,
    {
        let ghost start = self.log();
        self.batch(DROP_VEC_TABLE)?;
        self.exec(CLEAR_VEC_META, &[])?;
        let ghost cleared = self.log();
        let rows = self.query(
            "SELECT object_id, vector FROM embeddings WHERE object_type = 'observation' AND model = ?1",
            &[text(model)],
        )?;
        let mut n: i64 = 0;
        let mut i: usize = 0;
        while i < rows.len()
            invariant
                i <= rows@.len(),
                0 <= n <= i,
                self.log().len() >= cleared.len(),
                self.log().take(cleared.len() as int) == cleared,
                cleared.len() == start.len() + 2,
            decreases rows@.len() - i,
        {
            let row = &rows[i];
            let bytes = float_bytes(&get_blob(row, 1));
            let ghost before = self.log();
            self.vec_index_upsert_bytes(get_int(row, 0, 0), model, &bytes)?;
            proof {
                assert(self.log().take(before.len() as int) =~= before);
                assert(self.log().take(cleared.len() as int) =~= before.take(cleared.len() as int));
            }
            if n < i64::MAX {
                n += 1;
            }
            i += 1;
        }
        proof {
            assert(self.log()[start.len() as int] == self.log().take(cleared.len() as int)[start.len() as int]);
            assert(self.log()[start.len() + 1int] == self.log().take(cleared.len() as int)[start.len() + 1int]);
        }
        Ok(n)
    }
}

} // verus!
