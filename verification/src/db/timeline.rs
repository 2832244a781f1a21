use vstd::prelude::*;
use crate::errors::ErrorCode;
use crate::models::Timeline;
use crate::sql::{SqlRow, SqlValue};
use super::{cap_limit, effective_limit, live_decoded, Database, DbResult};

verus! {

/// Observations shown on each side of a timeline anchor by default.
pub const DEFAULT_TIMELINE_SIDE: i64 = 5;

impl Database {
    /// The observation `observation_id` with the live observations created
    /// just before it (oldest first) and just after it, ordered by creation
    /// time then id: at most `before`/`after` of each (default 5, capped at
    /// 50; a negative count means no cap).
    pub fn timeline(&self, observation_id: i64, before: Option<i64>, after: Option<i64>) -> (r: DbResult<Timeline>)
        ensures
            r matches Ok(t) ==> t.anchor.id == observation_id,
            r matches Ok(t) ==> exists|rows: Seq<SqlRow>|
                #[trigger] live_decoded(t.before@.reverse(), rows, effective_limit(before, DEFAULT_TIMELINE_SIDE)),
            r matches Ok(t) ==> exists|rows: Seq<SqlRow>|
                #[trigger] live_decoded(t.after@, rows, effective_limit(after, DEFAULT_TIMELINE_SIDE)),
            r matches Ok(t) ==> (effective_limit(before, DEFAULT_TIMELINE_SIDE) >= 0 ==> t.before@.len()
                <= effective_limit(before, DEFAULT_TIMELINE_SIDE)),
            r matches Ok(t) ==> (effective_limit(after, DEFAULT_TIMELINE_SIDE) >= 0 ==> t.after@.len()
                <= effective_limit(after, DEFAULT_TIMELINE_SIDE)),
            r matches Ok(t) ==> forall|k: int| 0 <= k < t.before@.len() ==> (#[trigger] t.before@[k]).deleted_at is None,
            r matches Ok(t) ==> forall|k: int| 0 <= k < t.after@.len() ==> (#[trigger] t.after@[k]).deleted_at is None,
            r matches Err(e) ==> e.code == ErrorCode::DatabaseError,
    {
        let before_limit = cap_limit(before, DEFAULT_TIMELINE_SIDE);
        let after_limit = cap_limit(after, DEFAULT_TIMELINE_SIDE);
        let anchor = self.get_observation(observation_id)?;

        let before_rows = self.query(
            "SELECT id, session_id, type, title, content, project, scope,
                    topic_key, tags, revision_count, duplicate_count,
                    created_at, updated_at, deleted_at
             FROM observations
             WHERE deleted_at IS NULL
               AND (datetime(created_at) < datetime(?1) OR (created_at = ?1 AND id < ?2))
             ORDER BY datetime(created_at) DESC, id DESC
             LIMIT ?3",
            &[
                SqlValue::Text(anchor.created_at.clone()),
                SqlValue::Integer(observation_id),
                SqlValue::Integer(before_limit),
            ],
        )?;
        let newest_first = Self::live_observations(&before_rows, before_limit);
        let before_obs = super::reversed(newest_first);

        let after_rows = self.query(
            "SELECT id, session_id, type, title, content, project, scope,
                    topic_key, tags, revision_count, duplicate_count,
                    created_at, updated_at, deleted_at
             FROM observations
             WHERE deleted_at IS NULL
               AND (datetime(created_at) > datetime(?1) OR (created_at = ?1 AND id > ?2))
             ORDER BY datetime(created_at) ASC, id ASC
             LIMIT ?3",
            &[
                SqlValue::Text(anchor.created_at.clone()),
                SqlValue::Integer(observation_id),
                SqlValue::Integer(after_limit),
            ],
        )?;
        let after_obs = Self::live_observations(&after_rows, after_limit);
        proof {
            assert(before_obs@.reverse() =~= newest_first@);
            assert(live_decoded(before_obs@.reverse(), before_rows@, before_limit));
            assert(live_decoded(after_obs@, after_rows@, after_limit));
        }
        Ok(Timeline { anchor, before: before_obs, after: after_obs })
    }
}

} // verus!
