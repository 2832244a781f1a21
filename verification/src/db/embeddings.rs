use vstd::prelude::*;
use crate::errors::ErrorCode;
use crate::models::Observation;
use crate::sql::{get_blob, get_int, get_text, opt_text, param_int, param_text, text, SqlValue};
use super::{observation_from_row, Database, DbResult};

verus! {

/// Stores the embedding of an object for a model, replacing an earlier one.
pub const UPSERT_EMBEDDING: &'static str = "INSERT INTO embeddings (object_type, object_id, model, dim, vector, created_at) VALUES (?1, ?2, ?3, ?4, ?5, ?6) ON CONFLICT(object_type, object_id, model) DO UPDATE SET dim = ?4, vector = ?5, created_at = ?6";

impl Database {
    /// Stores (or replaces) the embedding of an object for `model`, given
    /// as the little-endian bytes of its 32-bit floats, with its dimension.
    pub fn store_embedding(&mut self, object_type: &str, object_id: i64, model: &str, vector: &Vec<u8>) -> (r: DbResult<()>)
        requires
            vector@.len() % 4 == 0,
        ensures
            r matches Err(e) ==> e.code == ErrorCode::DatabaseError,
            r is Ok ==> {
                let w = final(self).log().last();
                &&& final(self).log() == old(self).log().push(w)
                &&& w.sql == UPSERT_EMBEDDING@ && w.params.len() == 6
                &&& param_text(w.params[0], object_type@) && param_int(w.params[1], object_id)
                &&& param_text(w.params[2], model@) && param_int(w.params[3], (vector@.len() / 4) as i64)
                &&& (w.params[4] matches SqlValue::Blob(b) && b@ == vector@) && w.params[5] is Text
            },
    {
        let dim: i64 = (vector.len() / 4) as i64;
        let now = self.now_utc()?;
        let params = vec![
            text(object_type),
            SqlValue::Integer(object_id),
            text(model),
            SqlValue::Integer(dim),
            SqlValue::Blob(vector.clone()),
            SqlValue::Text(now),
        ];
        self.exec(UPSERT_EMBEDDING, params.as_slice())?;
        Ok(())
    }

    /// The live observations (optionally of one type and project) that have
    /// an embedding for `model`, each with the bytes of that embedding, in
    /// the engine's order. Scoring them against a query is the caller's.
    pub fn embedding_candidates(&self, model: &str, obs_type: Option<&str>, project: Option<&str>) -> (r: DbResult<
        Vec<(Observation, Vec<u8>)>,
    >)
        ensures
            r matches Ok(v) ==> forall|k: int| 0 <= k < v@.len() ==> (#[trigger] v@[k]).0.deleted_at is None,
            r matches Err(e) ==> e.code == ErrorCode::DatabaseError,
    {
        let rows = self.query(
            "SELECT o.id, o.session_id, o.type, o.title, o.content, o.project, o.scope,
                    o.topic_key, o.tags, o.revision_count, o.duplicate_count,
                    o.created_at, o.updated_at, o.deleted_at, e.vector
             FROM embeddings e
             JOIN observations o ON o.id = e.object_id
             WHERE e.object_type = 'observation'
               AND e.model = ?1
               AND o.deleted_at IS NULL
               AND (?2 IS NULL OR o.type = ?2)
               AND (?3 IS NULL OR IFNULL(o.project, '') = IFNULL(?3, ''))",
            &[text(model), opt_text(obs_type), opt_text(project)],
        )?;
        let mut out: Vec<(Observation, Vec<u8>)> = Vec::new();
        let mut i: usize = 0;
        while i < rows.len()
            invariant
                i <= rows@.len(),
                forall|k: int| 0 <= k < out@.len() ==> (#[trigger] out@[k]).0.deleted_at is None,
            decreases rows@.len() - i,
        {
            let row = &rows[i];
            let o = observation_from_row(row);
            if o.deleted_at.is_none() {
                out.push((o, get_blob(row, 14)));
            }
            i += 1;
        }
        Ok(out)
    }

    /// The id and content of every live observation without an embedding
    /// for `model`, in id order.
    pub fn observations_needing_embedding(&self, model: &str) -> (r: DbResult<Vec<(i64, String)>>)
        ensures
            r matches Err(e) ==> e.code == ErrorCode::DatabaseError,
    {
        let rows = self.query(
            "SELECT id, content FROM observations
             WHERE deleted_at IS NULL
               AND id NOT IN (SELECT object_id FROM embeddings
                              WHERE object_type = 'observation' AND model = ?1)
             ORDER BY id",
            &[text(model)],
        )?;
        let mut out: Vec<(i64, String)> = Vec::new();
        let mut i: usize = 0;
        while i < rows.len()
            invariant
                i <= rows@.len(),
            decreases rows@.len() - i,
        {
            out.push((get_int(&rows[i], 0, 0), get_text(&rows[i], 1)));
            i += 1;
        }
        Ok(out)
    }
}

} // verus!
