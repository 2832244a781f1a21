use vstd::prelude::*;
use crate::errors::{ErrorCode, IgrisError};
use crate::models::Session;
use crate::sql::{get_opt_text, get_text, opt_str_view, opt_text, param_opt_text, param_text, text, SqlRow, SqlValue};
use crate::text::{is_blank, redact, strip_private_tags};
use crate::validation::{require_non_empty, validate_session};
use super::{Database, DbResult, StoreWrite, NO_ROWS_MESSAGE};

verus! {

/// `uuid::Uuid::new_v4().to_string()`: a fresh random identifier. Nothing
/// is claimed of its value, which is random.
#[verifier::external_body]
pub(crate) fn new_session_id() -> String {
    uuid::Uuid::new_v4().to_string()
}

/// Decodes the session columns of a row, in the order id, project,
/// directory, started_at, ended_at, summary.
pub fn session_from_row(row: &SqlRow) -> (s: Session)
    ensures
        s.id@ == crate::sql::cell_text_or_empty(row@, 0),
        s.project@ == crate::sql::cell_text_or_empty(row@, 1),
        super::opt_view(s.directory) == crate::sql::cell_text(row@, 2),
        s.started_at@ == crate::sql::cell_text_or_empty(row@, 3),
        super::opt_view(s.ended_at) == crate::sql::cell_text(row@, 4),
        super::opt_view(s.summary) == crate::sql::cell_text(row@, 5),
{
    Session {
        id: get_text(row, 0),
        project: get_text(row, 1),
        directory: get_opt_text(row, 2),
        started_at: get_text(row, 3),
        ended_at: get_opt_text(row, 4),
        summary: get_opt_text(row, 5),
    }
}

/// Inserts a started session.
pub const INSERT_SESSION: &'static str = "INSERT INTO sessions (id, project, directory, started_at) VALUES (?1, ?2, ?3, ?4)";

/// Ends a session, keeping its summary unless a new one is given.
pub const END_SESSION: &'static str = "UPDATE sessions SET ended_at = ?1, summary = COALESCE(?2, summary) WHERE id = ?3";

/// Sets the summary of a session.
pub const SET_SESSION_SUMMARY: &'static str = "UPDATE sessions SET summary = ?1 WHERE id = ?2";

/// Inserts a session that starts and ends at once, with its summary.
pub const INSERT_ENDED_SESSION: &'static str = "INSERT INTO sessions (id, project, started_at, ended_at, summary) VALUES (?1, ?2, ?3, ?4, ?5)";

/// `w` writes the summary `summary` of `project`: onto an open session,
/// or as a new session of the project that starts and ends at one time.
pub open spec fn summary_write(w: StoreWrite, summary: Seq<char>, project: Seq<char>) -> bool {
    ||| w.sql == SET_SESSION_SUMMARY@ && w.params.len() == 2 && param_text(w.params[0], summary) && w.params[1] is Text
    ||| w.sql == INSERT_ENDED_SESSION@ && w.params.len() == 5 && w.params[0] is Text && param_text(w.params[1], project)
        && w.params[2] is Text && w.params[3] == w.params[2] && param_text(w.params[4], summary)
}

impl Database {
    /// Registers the start of a working session.
    pub fn start_session(&mut self, id: &str, project: &str, directory: Option<&str>) -> (r: DbResult<Session>)
        ensures
            (is_blank(id@) || is_blank(project@)) ==> (r matches Err(e) && e.code == ErrorCode::ValidationError),
            !is_blank(id@) && !is_blank(project@) ==> (r matches Err(e) ==> e.code == ErrorCode::DatabaseError),
            r matches Ok(s) ==> s.id@ == id@,
            (is_blank(id@) || is_blank(project@)) ==> final(self).log() == old(self).log(),
            r is Ok ==> {
                let w = final(self).log().last();
                &&& final(self).log() == old(self).log().push(w)
                &&& w.sql == INSERT_SESSION@ && w.params.len() == 4
                &&& param_text(w.params[0], id@) && param_text(w.params[1], project@)
                &&& param_opt_text(w.params[2], opt_str_view(directory)) && w.params[3] is Text
            },
    {
        validate_session(id, project)?;
        let now = self.now_utc()?;
        let params = vec![text(id), text(project), opt_text(directory), SqlValue::Text(now)];
        self.exec(INSERT_SESSION, params.as_slice())?;
        self.get_session(id)
    }

    /// Marks a session as ended, keeping its summary unless a new one is given.
    pub fn end_session(&mut self, id: &str, summary: Option<&str>) -> (r: DbResult<Session>)
        ensures
            is_blank(id@) ==> (r matches Err(e) && e.code == ErrorCode::ValidationError),
            !is_blank(id@) ==> (r matches Err(e) ==> e.code == ErrorCode::DatabaseError),
            r matches Ok(s) ==> s.id@ == id@,
            is_blank(id@) ==> final(self).log() == old(self).log(),
            r is Ok ==> {
                let w = final(self).log().last();
                &&& final(self).log() == old(self).log().push(w)
                &&& w.sql == END_SESSION@ && w.params.len() == 3 && w.params[0] is Text
                &&& param_opt_text(w.params[1], opt_str_view(summary)) && param_text(w.params[2], id@)
            },
    {
        require_non_empty(id, "session id")?;
        let now = self.now_utc()?;
        let params = vec![SqlValue::Text(now), opt_text(summary), text(id)];
        self.exec(END_SESSION, params.as_slice())?;
        self.get_session(id)
    }

    /// Saves a session summary (with `<private>` blocks redacted) on the
    /// project's most recent open session, or on a new, already-ended
    /// session when the project has none open.
    pub fn save_session_summary(&mut self, content: &str, project: &str) -> (r: DbResult<Session>)
        ensures
            (is_blank(content@) || is_blank(project@)) ==> (r matches Err(e) && e.code
                == ErrorCode::ValidationError),
            !is_blank(content@) && !is_blank(project@) ==> (r matches Err(e) ==> e.code
                == ErrorCode::DatabaseError),
            (is_blank(content@) || is_blank(project@)) ==> final(self).log() == old(self).log(),
            r is Ok ==> final(self).log() == old(self).log().push(final(self).log().last()) && summary_write(
                final(self).log().last(),
                redact(content@),
                project@,
            ),
    {
        require_non_empty(content, "content")?;
        require_non_empty(project, "project")?;
        let clean = strip_private_tags(content);
        let rows = self.query(
            "SELECT id FROM sessions
             WHERE project = ?1 AND ended_at IS NULL
             ORDER BY datetime(started_at) DESC
             LIMIT 1",
            &[text(project)],
        )?;
        let open_session = if rows.len() > 0 { get_opt_text(&rows[0], 0) } else { None };
        match open_session {
            Some(id) => {
                let params = vec![SqlValue::Text(clean), SqlValue::Text(id.clone())];
                self.exec(SET_SESSION_SUMMARY, params.as_slice())?;
                self.get_session(id.as_str())
            },
            None => {
                let id = new_session_id();
                let now = self.now_utc()?;
                let params = vec![
                    SqlValue::Text(id.clone()),
                    text(project),
                    SqlValue::Text(now.clone()),
                    SqlValue::Text(now),
                    SqlValue::Text(clean),
                ];
                self.exec(INSERT_ENDED_SESSION, params.as_slice())?;
                self.get_session(id.as_str())
            },
        }
    }

    /// Fetches a session by id; an engine "no rows" error when absent.
    pub fn get_session(&self, id: &str) -> (r: DbResult<Session>)
        ensures
            r matches Ok(s) ==> s.id@ == id@,
            r matches Err(e) ==> e.code == ErrorCode::DatabaseError,
    {
        let rows = self.query(
            "SELECT id, project, directory, started_at, ended_at, summary
             FROM sessions WHERE id = ?1",
            &[text(id)],
        )?;
        if rows.len() == 0 {
            return Err(IgrisError::database(String::from_str(NO_ROWS_MESSAGE)));
        }
        let s = session_from_row(&rows[0]);
        if !crate::text::str_eq(s.id.as_str(), id) {
            return Err(IgrisError::database(String::from_str(NO_ROWS_MESSAGE)));
        }
        Ok(s)
    }
}

} // verus!
