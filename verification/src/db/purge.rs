use vstd::prelude::*;
use crate::errors::{ErrorCode, IgrisError};
use crate::models::PurgeResult;
use crate::sql::{param_text, SqlValue};
use crate::text::{concat_str, decimal, decimal_digits};
use super::{write_of, Database, DbResult, StoreWrite};

verus! {

/// The phases a purge reports.
pub const PURGE_PHASES: u64 = 2;

/// The window parameter of a purge: `-<days> days`.
pub open spec fn spec_purge_window(days: i64) -> Seq<char> {
    "-"@ + decimal_digits(days as nat) + " days"@
}

/// Deletes the observations soft-deleted before the window.
pub const PURGE_DELETED: &'static str = "DELETE FROM observations WHERE deleted_at IS NOT NULL AND datetime(deleted_at) <= datetime('now', ?1)";

/// The writes of a completed purge of observations soft-deleted at least
/// `days` days ago: the delete, which removed `n` rows, then the vacuum.
pub open spec fn purge_writes(old: Seq<StoreWrite>, new: Seq<StoreWrite>, days: i64, n: nat) -> bool {
    &&& new.len() == old.len() + 2
    &&& new.drop_last().drop_last() == old
    &&& new[old.len() as int] == write_of(PURGE_DELETED@, new[old.len() as int].params, n)
    &&& new[old.len() as int].params.len() == 1
    &&& param_text(new[old.len() as int].params[0], spec_purge_window(days))
    &&& new.last() == write_of("VACUUM"@, Seq::empty(), 0)
}

/// The number of purged rows as reported: the engine's count, capped to
/// the integer range.
pub open spec fn purged_count(n: nat) -> int {
    if n > i64::MAX { i64::MAX as int } else { n as int }
}

/// Builds the window parameter of a purge.
pub fn purge_window(days: i64) -> (r: SqlValue)
    requires
        days >= 0,
    ensures
        param_text(r, spec_purge_window(days)),
{
    SqlValue::Text(concat_str(concat_str("-", decimal(days as u64).as_str()).as_str(), " days"))
}

impl Database {
    /// Permanently deletes observations soft-deleted at least
    /// `older_than_days` days ago (0 = all soft-deleted ones), then reclaims
    /// space. A negative day count is rejected.
    pub fn purge(&mut self, older_than_days: i64) -> (r: DbResult<PurgeResult>)
        ensures
            older_than_days < 0 ==> (r matches Err(e) && e.code == ErrorCode::ValidationError && e.error@
                == "older_than_days must be >= 0, got -"@ + decimal_digits((0 - older_than_days) as nat)),
            older_than_days < 0 ==> final(self).log() == old(self).log(),
            older_than_days >= 0 ==> (r matches Err(e) ==> e.code == ErrorCode::DatabaseError),
            r matches Ok(p) ==> exists|n: nat| #[trigger] purge_writes(old(self).log(), final(self).log(), older_than_days, n)
                && p.observations_purged == purged_count(n),
    {
        self.purge_with_progress(older_than_days, |phase: &str, done: u64, total: u64| {})
    }

    /// Same as `purge`, calling `on_progress(phase, phases_done, phases_total)`
    /// after each of its two phases (`hard_delete`, then `vacuum`).
    pub fn purge_with_progress<F: Fn(&str, u64, u64)>(&mut self, older_than_days: i64, on_progress: F) -> (r: DbResult<PurgeResult>)
        requires
            forall|phase: &str, done: u64, total: u64| call_requires(on_progress, (phase, done, total)),
        ensures
            older_than_days < 0 ==> (r matches Err(e) && e.code == ErrorCode::ValidationError && e.error@
                == "older_than_days must be >= 0, got -"@ + decimal_digits((0 - older_than_days) as nat)),
            older_than_days < 0 ==> final(self).log() == old(self).log(),
            older_than_days >= 0 ==> (r matches Err(e) ==> e.code == ErrorCode::DatabaseError),
            r matches Ok(p) ==> exists|n: nat| #[trigger] purge_writes(old(self).log(), final(self).log(), older_than_days, n)
                && p.observations_purged == purged_count(n),
    {
        if older_than_days < 0 {
            let msg = concat_str("older_than_days must be >= 0, got -", decimal((0 - (older_than_days as i128)) as u64).as_str());
            return Err(IgrisError::validation(msg));
        }
        let window = purge_window(older_than_days);
        let ghost start = self.log();
        let params = vec![window];
        let affected = self.exec(PURGE_DELETED, params.as_slice())?;
        on_progress("hard_delete", 1, PURGE_PHASES);
        self.batch("VACUUM")?;
        on_progress("vacuum", 2, PURGE_PHASES);
        let purged: i64 = if affected as u64 > i64::MAX as u64 { i64::MAX } else { affected as i64 };
        proof {
            let fin = self.log();
            assert(fin.drop_last().drop_last() =~= start);
            assert(purge_writes(start, fin, older_than_days, affected as nat));
        }
        Ok(PurgeResult { observations_purged: purged })
    }
}

} // verus!
