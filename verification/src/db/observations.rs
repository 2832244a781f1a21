use vstd::prelude::*;
use crate::errors::{ErrorCode, IgrisError};
use crate::json::{json_array_text, json_string_array, string_array_text, strings_view};
use crate::models::{BackfillCandidate, Observation};
use crate::sql::{cell_int, SqlRow, get_int, get_opt_text, get_text, opt_str_view, opt_text, param_int, param_opt_text, param_text, text, SqlValue};
use crate::text::{concat_str, decimal, decimal_digits, hash_content, redact, spec_hash_content, strip_private_tags};
use crate::validation::{is_valid_observation_type, save_is_valid, validate_observation_type, validate_save, validate_update_has_fields};
use super::{first_int, StoreRead, StoreWrite, stamp_params, stamped_once, decodes_observation, observation_from_row, Database, DbResult, DEDUPE_WINDOW_MINUTES, NO_ROWS_MESSAGE};

verus! {

/// What a save does, given the live observation with the same topic key
/// (if a key was given) and the live duplicate within the window.
#[derive(Debug, Clone, Copy, PartialEq, Eq, Structural)]
pub enum SaveAction {
    /// Overwrite the observation that owns the topic key (a new revision).
    ReviseTopic(i64),
    /// Count one more duplicate of an identical recent observation.
    CountDuplicate(i64),
    /// Store a new observation.
    Insert,
}

/// The save rule: a topic-key match wins, then a recent duplicate, else a
/// new row.
pub open spec fn spec_save_action(topic_hit: Option<i64>, duplicate_hit: Option<i64>) -> SaveAction {
    match topic_hit {
        Some(id) => SaveAction::ReviseTopic(id),
        None => match duplicate_hit {
            Some(id) => SaveAction::CountDuplicate(id),
            None => SaveAction::Insert,
        },
    }
}

/// Decides what a save does.
pub fn save_action(topic_hit: Option<i64>, duplicate_hit: Option<i64>) -> (r: SaveAction)
    ensures
        r == spec_save_action(topic_hit, duplicate_hit),
{
    match topic_hit {
        Some(id) => SaveAction::ReviseTopic(id),
        None => match duplicate_hit {
            Some(id) => SaveAction::CountDuplicate(id),
            None => SaveAction::Insert,
        },
    }
}

/// The tag texts of an optional tag list.
pub open spec fn tags_arg(tags: Option<&[String]>) -> Option<Seq<Seq<char>>> {
    match tags {
        Some(t) => Some(strings_view(t@)),
        None => None,
    }
}

/// `v` is the tags parameter: the JSON array text of the tags, or NULL.
pub open spec fn param_tags(v: SqlValue, tags: Option<Seq<Seq<char>>>) -> bool {
    match tags {
        Some(t) => param_text(v, json_array_text(t)),
        None => v is Null,
    }
}

/// The JSON text of optional tags.
pub fn tags_text(tags: Option<&[String]>) -> (r: SqlValue)
    ensures
        param_tags(r, tags_arg(tags)),
        tags is None ==> r is Null,
        tags is Some ==> r is Text,
        tags matches Some(t) ==> (r matches SqlValue::Text(x) && json_string_array(x@) == Some(strings_view(t@))),
{
    match tags {
        Some(t) => SqlValue::Text(string_array_text(t)),
        None => SqlValue::Null,
    }
}

/// The parameters of the insert of a new observation: session, type, the
/// redacted title and content, project, scope, topic key, the hash of the
/// redacted content, the tags, and `now` as both creation and update time.
pub open spec fn spec_insert_params(
    p: Seq<SqlValue>,
    title: Seq<char>,
    content: Seq<char>,
    obs_type: Seq<char>,
    project: Option<Seq<char>>,
    scope: Seq<char>,
    topic_key: Option<Seq<char>>,
    tags: Option<Seq<Seq<char>>>,
    session_id: Option<Seq<char>>,
    now: Seq<char>,
) -> bool {
    &&& p.len() == 11
    &&& param_opt_text(p[0], session_id)
    &&& param_text(p[1], obs_type)
    &&& param_text(p[2], redact(title))
    &&& param_text(p[3], redact(content))
    &&& param_opt_text(p[4], project)
    &&& param_text(p[5], scope)
    &&& param_opt_text(p[6], topic_key)
    &&& param_text(p[7], spec_hash_content(redact(content)))
    &&& param_tags(p[8], tags)
    &&& param_text(p[9], now)
    &&& param_text(p[10], now)
}

/// Builds the parameters of the insert of a new observation.
pub fn insert_params(
    title: &str,
    content: &str,
    obs_type: &str,
    project: Option<&str>,
    scope: &str,
    topic_key: Option<&str>,
    tags: Option<&[String]>,
    session_id: Option<&str>,
    now: &str,
) -> (r: Vec<SqlValue>)
    ensures
        spec_insert_params(r@, title@, content@, obs_type@, opt_str_view(project), scope@, opt_str_view(topic_key), tags_arg(tags), opt_str_view(session_id), now@),
{
    let clean_content = strip_private_tags(content);
    let content_hash = hash_content(clean_content.as_str());
    vec![
        opt_text(session_id),
        text(obs_type),
        SqlValue::Text(strip_private_tags(title)),
        SqlValue::Text(clean_content),
        opt_text(project),
        text(scope),
        opt_text(topic_key),
        SqlValue::Text(content_hash),
        tags_text(tags),
        text(now),
        text(now),
    ]
}

/// The parameters of a topic revision: the redacted title and content,
/// type, the hash of the redacted content, the tags, `now`, and the id.
pub open spec fn spec_revise_params(
    p: Seq<SqlValue>,
    title: Seq<char>,
    content: Seq<char>,
    obs_type: Seq<char>,
    tags: Option<Seq<Seq<char>>>,
    now: Seq<char>,
    id: i64,
) -> bool {
    &&& p.len() == 7
    &&& param_text(p[0], redact(title))
    &&& param_text(p[1], redact(content))
    &&& param_text(p[2], obs_type)
    &&& param_text(p[3], spec_hash_content(redact(content)))
    &&& param_tags(p[4], tags)
    &&& param_text(p[5], now)
    &&& param_int(p[6], id)
}

/// Builds the parameters of a topic revision.
pub fn revise_params(
    title: &str,
    content: &str,
    obs_type: &str,
    tags: Option<&[String]>,
    now: &str,
    id: i64,
) -> (r: Vec<SqlValue>)
    ensures
        spec_revise_params(r@, title@, content@, obs_type@, tags_arg(tags), now@, id),
{
    let clean_content = strip_private_tags(content);
    let content_hash = hash_content(clean_content.as_str());
    vec![
        SqlValue::Text(strip_private_tags(title)),
        SqlValue::Text(clean_content),
        text(obs_type),
        SqlValue::Text(content_hash),
        tags_text(tags),
        text(now),
        SqlValue::Integer(id),
    ]
}

/// The parameters of the topic-key lookup: the key, the project and the
/// scope (the lookup stays within them).
pub open spec fn spec_topic_lookup_params(p: Seq<SqlValue>, topic_key: Seq<char>, project: Option<Seq<char>>, scope: Seq<char>) -> bool {
    &&& p.len() == 3
    &&& param_text(p[0], topic_key)
    &&& param_opt_text(p[1], project)
    &&& param_text(p[2], scope)
}

/// Builds the parameters of the topic-key lookup.
pub fn topic_lookup_params(topic_key: &str, project: Option<&str>, scope: &str) -> (r: Vec<SqlValue>)
    ensures
        spec_topic_lookup_params(r@, topic_key@, opt_str_view(project), scope@),
{
    vec![text(topic_key), opt_text(project), text(scope)]
}

/// The parameters of the duplicate lookup: the hash of the redacted
/// content, the project, the scope, the type and the window
/// (`-15 minutes`).
pub open spec fn spec_duplicate_lookup_params(
    p: Seq<SqlValue>,
    content: Seq<char>,
    project: Option<Seq<char>>,
    scope: Seq<char>,
    obs_type: Seq<char>,
) -> bool {
    &&& p.len() == 5
    &&& param_text(p[0], spec_hash_content(redact(content)))
    &&& param_opt_text(p[1], project)
    &&& param_text(p[2], scope)
    &&& param_text(p[3], obs_type)
    &&& param_text(p[4], "-"@ + decimal_digits(DEDUPE_WINDOW_MINUTES as nat) + " minutes"@)
}

/// Builds the parameters of the duplicate lookup.
pub fn duplicate_lookup_params(content: &str, project: Option<&str>, scope: &str, obs_type: &str) -> (r: Vec<SqlValue>)
    ensures
        spec_duplicate_lookup_params(r@, content@, opt_str_view(project), scope@, obs_type@),
{
    let clean_content = strip_private_tags(content);
    let window = concat_str(concat_str("-", decimal(DEDUPE_WINDOW_MINUTES).as_str()).as_str(), " minutes");
    vec![
        SqlValue::Text(hash_content(clean_content.as_str())),
        opt_text(project),
        text(scope),
        text(obs_type),
        SqlValue::Text(window),
    ]
}

/// The parameters of a title update: the redacted title, `now`, the id.
pub open spec fn spec_title_update_params(p: Seq<SqlValue>, title: Seq<char>, now: Seq<char>, id: i64) -> bool {
    p.len() == 3 && param_text(p[0], redact(title)) && param_text(p[1], now) && param_int(p[2], id)
}

/// Builds the parameters of a title update.
pub fn title_update_params(title: &str, now: &str, id: i64) -> (r: Vec<SqlValue>)
    ensures
        spec_title_update_params(r@, title@, now@, id),
{
    vec![SqlValue::Text(strip_private_tags(title)), text(now), SqlValue::Integer(id)]
}

/// The parameters of a content update: the redacted content, its hash,
/// `now`, the id.
pub open spec fn spec_content_update_params(p: Seq<SqlValue>, content: Seq<char>, now: Seq<char>, id: i64) -> bool {
    &&& p.len() == 4
    &&& param_text(p[0], redact(content))
    &&& param_text(p[1], spec_hash_content(redact(content)))
    &&& param_text(p[2], now)
    &&& param_int(p[3], id)
}

/// Builds the parameters of a content update.
pub fn content_update_params(content: &str, now: &str, id: i64) -> (r: Vec<SqlValue>)
    ensures
        spec_content_update_params(r@, content@, now@, id),
{
    let clean = strip_private_tags(content);
    let hash = hash_content(clean.as_str());
    vec![SqlValue::Text(clean), SqlValue::Text(hash), text(now), SqlValue::Integer(id)]
}

/// The answer to a lookup of observation `id` from the store's rows: the
/// decoding of the first row when it has that id, else the engine's
/// "no rows" error.
pub open spec fn spec_observation_by_id(r: DbResult<Observation>, rows: Seq<SqlRow>, id: i64) -> bool {
    if rows.len() > 0 && cell_int(rows[0]@, 0, 0) == id {
        r matches Ok(o) && decodes_observation(o, rows[0]@)
    } else {
        r matches Err(e) && e.code == ErrorCode::DatabaseError && e.error@ == NO_ROWS_MESSAGE@
    }
}

/// Reads observation `id` from the store's rows.
pub fn observation_by_id(rows: &Vec<SqlRow>, id: i64) -> (r: DbResult<Observation>)
    ensures
        spec_observation_by_id(r, rows@, id),
{
    if rows.len() > 0 {
        let o = observation_from_row(&rows[0]);
        if o.id == id {
            return Ok(o);
        }
    }
    Err(IgrisError::database(String::from_str(NO_ROWS_MESSAGE)))
}

/// Soft-deletes a live observation: sets its `deleted_at` to the stamp.
pub const SOFT_DELETE_OBSERVATION: &'static str = "UPDATE observations SET deleted_at = ?1 WHERE id = ?2 AND deleted_at IS NULL";

/// Records when a live observation was reviewed for entities.
pub const MARK_REVIEWED: &'static str = "UPDATE observations SET entities_reviewed_at = ?1 WHERE id = ?2 AND deleted_at IS NULL";

/// Sets an observation's title.
pub const UPDATE_TITLE: &'static str = "UPDATE observations SET title = ?1, updated_at = ?2 WHERE id = ?3";

/// Sets an observation's content and its hash.
pub const UPDATE_CONTENT: &'static str = "UPDATE observations SET content = ?1, normalized_hash = ?2, updated_at = ?3 WHERE id = ?4";

/// Sets an observation's type.
pub const UPDATE_TYPE: &'static str = "UPDATE observations SET type = ?1, updated_at = ?2 WHERE id = ?3";

/// Sets an observation's tags.
pub const UPDATE_TAGS: &'static str = "UPDATE observations SET tags = ?1, updated_at = ?2 WHERE id = ?3";

/// Sets an observation's topic key.
pub const UPDATE_TOPIC_KEY: &'static str = "UPDATE observations SET topic_key = ?1, updated_at = ?2 WHERE id = ?3";

/// `w` sets one field of observation `id` to the text `v` (with the update
/// time).
pub open spec fn field_write(w: StoreWrite, sql: Seq<char>, v: Seq<char>, id: i64) -> bool {
    w.sql == sql && w.params.len() == 3 && param_text(w.params[0], v) && w.params[1] is Text && param_int(w.params[2], id)
}

/// `p` is the title write of an update (none without a title): the
/// redacted title.
pub open spec fn title_piece(p: Seq<StoreWrite>, title: Option<Seq<char>>, id: i64) -> bool {
    match title {
        None => p.len() == 0,
        Some(t) => p.len() == 1 && p[0].sql == UPDATE_TITLE@ && p[0].params.len() == 3 && param_text(
            p[0].params[0],
            redact(t),
        ) && p[0].params[1] is Text && param_int(p[0].params[2], id),
    }
}

/// `p` is the content write of an update (none without content): the
/// redacted content and its hash.
pub open spec fn content_piece(p: Seq<StoreWrite>, content: Option<Seq<char>>, id: i64) -> bool {
    match content {
        None => p.len() == 0,
        Some(c) => p.len() == 1 && p[0].sql == UPDATE_CONTENT@ && p[0].params.len() == 4 && param_text(
            p[0].params[0],
            redact(c),
        ) && param_text(p[0].params[1], spec_hash_content(redact(c))) && p[0].params[2] is Text && param_int(
            p[0].params[3],
            id,
        ),
    }
}

/// `p` is the write of one more field of an update (none when the field
/// is not given).
pub open spec fn field_piece(p: Seq<StoreWrite>, v: Option<Seq<char>>, sql: Seq<char>, id: i64) -> bool {
    match v {
        None => p.len() == 0,
        Some(x) => p.len() == 1 && field_write(p[0], sql, x, id),
    }
}

/// The JSON array text of optional tags.
pub open spec fn tags_json(tags: Option<Seq<Seq<char>>>) -> Option<Seq<char>> {
    match tags {
        Some(t) => Some(json_array_text(t)),
        None => None,
    }
}

/// `ws` are the writes of an update of observation `id`: one per given
/// field, in the order title, content, type, tags, topic key.
pub open spec fn update_writes(
    ws: Seq<StoreWrite>,
    id: i64,
    title: Option<Seq<char>>,
    content: Option<Seq<char>>,
    obs_type: Option<Seq<char>>,
    tags: Option<Seq<Seq<char>>>,
    topic_key: Option<Seq<char>>,
) -> bool {
    exists|a: Seq<StoreWrite>, b: Seq<StoreWrite>, c: Seq<StoreWrite>, d: Seq<StoreWrite>, e: Seq<StoreWrite>|
        ws == a + b + c + d + e && #[trigger] title_piece(a, title, id) && #[trigger] content_piece(b, content, id)
            && #[trigger] field_piece(c, obs_type, UPDATE_TYPE@, id) && #[trigger] field_piece(d, tags_json(tags), UPDATE_TAGS@, id)
            && #[trigger] field_piece(e, topic_key, UPDATE_TOPIC_KEY@, id)
}

/// The writes of an update, piece by piece, make up its writes.
proof fn lemma_update_writes(
    ws: Seq<StoreWrite>,
    a: Seq<StoreWrite>,
    b: Seq<StoreWrite>,
    c: Seq<StoreWrite>,
    d: Seq<StoreWrite>,
    e: Seq<StoreWrite>,
    id: i64,
    title: Option<Seq<char>>,
    content: Option<Seq<char>>,
    obs_type: Option<Seq<char>>,
    tags: Option<Seq<Seq<char>>>,
    topic_key: Option<Seq<char>>,
)
    requires
        ws == a + b + c + d + e,
        title_piece(a, title, id),
        content_piece(b, content, id),
        field_piece(c, obs_type, UPDATE_TYPE@, id),
        field_piece(d, tags_json(tags), UPDATE_TAGS@, id),
        field_piece(e, topic_key, UPDATE_TOPIC_KEY@, id),
    ensures
        update_writes(ws, id, title, content, obs_type, tags, topic_key),
{
}

/// Revises the observation that owns a topic key.
pub const REVISE_OBSERVATION: &'static str = "UPDATE observations
                     SET title = ?1, content = ?2, type = ?3,
                         normalized_hash = ?4, tags = ?5,
                         revision_count = revision_count + 1,
                         updated_at = ?6
                     WHERE id = ?7";

/// Counts one more duplicate of an observation.
pub const COUNT_DUPLICATE: &'static str = "UPDATE observations
                     SET duplicate_count = duplicate_count + 1,
                         updated_at = ?1
                     WHERE id = ?2";

/// Stores a new observation.
pub const INSERT_OBSERVATION: &'static str = "INSERT INTO observations
                     (session_id, type, title, content, project, scope, topic_key,
                      normalized_hash, tags, created_at, updated_at)
                     VALUES (?1, ?2, ?3, ?4, ?5, ?6, ?7, ?8, ?9, ?10, ?11)";

/// The one write a save makes: with a topic key, a revision of the
/// observation owning it (redacted title and content, their hash); or one
/// more duplicate of an identical recent observation; or the insert of a
/// new observation with the redacted title and content and the hash of the
/// redacted content.
pub open spec fn save_write(
    w: StoreWrite,
    title: Seq<char>,
    content: Seq<char>,
    obs_type: Seq<char>,
    project: Option<Seq<char>>,
    scope: Seq<char>,
    topic_key: Option<Seq<char>>,
    tags: Option<Seq<Seq<char>>>,
    session_id: Option<Seq<char>>,
) -> bool {
    ||| topic_key is Some && w.sql == REVISE_OBSERVATION@ && exists|now: Seq<char>, id: i64|
        #[trigger] spec_revise_params(w.params, title, content, obs_type, tags, now, id)
    ||| w.sql == COUNT_DUPLICATE@ && w.params.len() == 2 && w.params[0] is Text && w.params[1] is Integer
    ||| w.sql == INSERT_OBSERVATION@ && exists|now: Seq<char>|
        #[trigger] spec_insert_params(w.params, title, content, obs_type, project, scope, topic_key, tags, session_id, now)
}

/// Finds the live observation of a project and scope that owns a topic key.
pub const TOPIC_LOOKUP: &'static str = "SELECT id FROM observations WHERE topic_key = ?1 AND IFNULL(project, '') = IFNULL(?2, '') AND scope = ?3 AND deleted_at IS NULL ORDER BY datetime(updated_at) DESC LIMIT 1";

/// Finds a live observation of a project, scope and type with the same
/// content hash saved within the deduplication window.
pub const DUPLICATE_LOOKUP: &'static str = "SELECT id FROM observations WHERE normalized_hash = ?1 AND IFNULL(project, '') = IFNULL(?2, '') AND scope = ?3 AND type = ?4 AND deleted_at IS NULL AND datetime(created_at) >= datetime('now', ?5) LIMIT 1";

/// How a save decided, from its lookups `rs` to its write `w`: with a topic
/// key, first the topic lookup; where it found nothing, the duplicate
/// lookup; then the write that the save rule picks from their answers.
pub open spec fn save_decided(
    rs: Seq<StoreRead>,
    w: StoreWrite,
    title: Seq<char>,
    content: Seq<char>,
    obs_type: Seq<char>,
    project: Option<Seq<char>>,
    scope: Seq<char>,
    topic_key: Option<Seq<char>>,
    tags: Option<Seq<Seq<char>>>,
    session_id: Option<Seq<char>>,
) -> bool {
    let k: int = if topic_key is Some { 1 } else { 0 };
    let topic_hit: Option<i64> = if topic_key is Some && rs.len() > 0 { first_int(rs[0].rows) } else { None };
    let dup_hit: Option<i64> = if topic_hit is None && rs.len() > k { first_int(rs[k].rows) } else { None };
    &&& (topic_key matches Some(tk) ==> rs.len() >= 1 && rs[0].sql == TOPIC_LOOKUP@ && spec_topic_lookup_params(
        rs[0].params,
        tk,
        project,
        scope,
    ))
    &&& (topic_hit is Some ==> rs.len() == k)
    &&& (topic_hit is None ==> rs.len() == k + 1 && rs[k].sql == DUPLICATE_LOOKUP@ && spec_duplicate_lookup_params(
        rs[k].params,
        content,
        project,
        scope,
        obs_type,
    ))
    &&& save_write_for(spec_save_action(topic_hit, dup_hit), w, title, content, obs_type, project, scope, topic_key, tags, session_id)
}

/// `w` is the write of the save action `action`: a revision of the
/// observation owning the topic key, one more duplicate of an identical
/// recent one, or the insert of a new observation.
pub open spec fn save_write_for(
    action: SaveAction,
    w: StoreWrite,
    title: Seq<char>,
    content: Seq<char>,
    obs_type: Seq<char>,
    project: Option<Seq<char>>,
    scope: Seq<char>,
    topic_key: Option<Seq<char>>,
    tags: Option<Seq<Seq<char>>>,
    session_id: Option<Seq<char>>,
) -> bool {
    match action {
        SaveAction::ReviseTopic(id) => w.sql == REVISE_OBSERVATION@ && exists|now: Seq<char>|
            #[trigger] spec_revise_params(w.params, title, content, obs_type, tags, now, id),
        SaveAction::CountDuplicate(id) => w.sql == COUNT_DUPLICATE@ && w.params.len() == 2 && w.params[0] is Text
            && param_int(w.params[1], id),
        SaveAction::Insert => w.sql == INSERT_OBSERVATION@ && exists|now: Seq<char>|
            #[trigger] spec_insert_params(w.params, title, content, obs_type, project, scope, topic_key, tags, session_id, now),
    }
}

/// A save with a topic key whose lookup finds an observation revises that
/// observation in place, with the redacted title and content.
pub proof fn law_topic_hit_revises(
    rs: Seq<StoreRead>,
    w: StoreWrite,
    title: Seq<char>,
    content: Seq<char>,
    obs_type: Seq<char>,
    project: Option<Seq<char>>,
    scope: Seq<char>,
    topic_key: Option<Seq<char>>,
    tags: Option<Seq<Seq<char>>>,
    session_id: Option<Seq<char>>,
    id: i64,
)
    requires
        save_decided(rs, w, title, content, obs_type, project, scope, topic_key, tags, session_id),
        topic_key is Some,
        first_int(rs[0].rows) == Some(id),
    ensures
        rs.len() == 1,
        w.sql == REVISE_OBSERVATION@,
        exists|now: Seq<char>| #[trigger] spec_revise_params(w.params, title, content, obs_type, tags, now, id),
{
}

/// A save that no topic key decides and whose duplicate lookup finds a
/// recent identical observation counts one more duplicate of it and
/// stores nothing new.
pub proof fn law_duplicate_is_counted(
    rs: Seq<StoreRead>,
    w: StoreWrite,
    title: Seq<char>,
    content: Seq<char>,
    obs_type: Seq<char>,
    project: Option<Seq<char>>,
    scope: Seq<char>,
    topic_key: Option<Seq<char>>,
    tags: Option<Seq<Seq<char>>>,
    session_id: Option<Seq<char>>,
    id: i64,
)
    requires
        save_decided(rs, w, title, content, obs_type, project, scope, topic_key, tags, session_id),
        rs.len() > 0,
        rs.last().sql == DUPLICATE_LOOKUP@,
        first_int(rs.last().rows) == Some(id),
    ensures
        w.sql == COUNT_DUPLICATE@,
        param_int(w.params[1], id),
{
    let k: int = if topic_key is Some { 1 } else { 0 };
    if topic_key is Some && first_int(rs[0].rows) is Some {
        assert(rs.len() == 1);
        assert(rs[0].sql == TOPIC_LOOKUP@);
        reveal_strlit("SELECT id FROM observations WHERE topic_key = ?1 AND IFNULL(project, '') = IFNULL(?2, '') AND scope = ?3 AND deleted_at IS NULL ORDER BY datetime(updated_at) DESC LIMIT 1");
        reveal_strlit("SELECT id FROM observations WHERE normalized_hash = ?1 AND IFNULL(project, '') = IFNULL(?2, '') AND scope = ?3 AND type = ?4 AND deleted_at IS NULL AND datetime(created_at) >= datetime('now', ?5) LIMIT 1");
        assert(TOPIC_LOOKUP@.len() != DUPLICATE_LOOKUP@.len());
    }
    assert(rs.last() == rs[k]);
}

impl Database {
    /// Saves an observation. Title and content are stored with their
    /// `<private>` blocks redacted. With a `topic_key` that a live
    /// observation of the same project and scope already has, that
    /// observation is revised in place; otherwise identical content of the
    /// same project, scope and type saved within the deduplication window is
    /// counted as a duplicate; otherwise a new observation is stored.
    #[verifier::spinoff_prover]
    #[verifier::rlimit(100)]
    pub fn save_observation(
        &mut self,
        title: &str,
        content: &str,
        obs_type: &str,
        project: Option<&str>,
        scope: &str,
        topic_key: Option<&str>,
        tags: Option<&[String]>,
        session_id: Option<&str>,
    ) -> (r: DbResult<Observation>)
        ensures
            !save_is_valid(title@, content@, obs_type@, scope@) ==> (r matches Err(e) && e.code
                == ErrorCode::ValidationError),
            save_is_valid(title@, content@, obs_type@, scope@) ==> (r matches Err(e) ==> e.code
                == ErrorCode::DatabaseError),
            r matches Ok(o) ==> exists|rows: Seq<SqlRow>| #[trigger] spec_observation_by_id(r, rows, o.id),
            !save_is_valid(title@, content@, obs_type@, scope@) ==> final(self).log() == old(self).log(),
            r is Ok ==> final(self).log() == old(self).log().push(final(self).log().last()) && save_write(
                final(self).log().last(),
                title@,
                content@,
                obs_type@,
                opt_str_view(project),
                scope@,
                opt_str_view(topic_key),
                tags_arg(tags),
                opt_str_view(session_id),
            ),
            r is Ok ==> final(self).lookups().len() >= old(self).lookups().len() && final(self).lookups().take(
                old(self).lookups().len() as int,
            ) == old(self).lookups() && save_decided(
                final(self).lookups().skip(old(self).lookups().len() as int),
                final(self).log().last(),
                title@,
                content@,
                obs_type@,
                opt_str_view(project),
                scope@,
                opt_str_view(topic_key),
                tags_arg(tags),
                opt_str_view(session_id),
            ),
    {
        let ghost start_reads = self.lookups();
        validate_save(title, content, obs_type, scope)?;
        let now = self.now_utc()?;

        let topic_hit = match topic_key {
            Some(tk) => {
                let params = topic_lookup_params(tk, project, scope);
                self.lookup_int(TOPIC_LOOKUP, params.as_slice())?
            },
            None => None,
        };
        let ghost after_topic = self.lookups();
        proof {
            let rs = after_topic.skip(start_reads.len() as int);
            if topic_key is Some {
                assert(rs.len() == 1);
                assert(rs[0] == after_topic.last());
                assert(first_int(rs[0].rows) == topic_hit);
            } else {
                assert(rs.len() == 0);
            }
        }
        let duplicate_hit = if topic_hit.is_some() {
            None
        } else {
            let params = duplicate_lookup_params(content, project, scope, obs_type);
            self.lookup_int(DUPLICATE_LOOKUP, params.as_slice())?
        };
        proof {
            let rs = self.lookups().skip(start_reads.len() as int);
            let k: int = if topic_key is Some { 1 } else { 0 };
            assert(self.lookups().take(start_reads.len() as int) =~= start_reads);
            if topic_key is Some {
                assert(rs[0] == after_topic.skip(start_reads.len() as int)[0]);
            }
            if topic_hit is None {
                assert(rs.len() == k + 1);
                assert(rs[k] == self.lookups().last());
                assert(first_int(rs[k].rows) == duplicate_hit);
            } else {
                assert(rs =~= after_topic.skip(start_reads.len() as int));
            }
            assert((if topic_key is Some && rs.len() > 0 { first_int(rs[0].rows) } else { None }) == topic_hit);
            assert((if topic_hit is None && rs.len() > k { first_int(rs[k].rows) } else { None }) == duplicate_hit);
        }
        let ghost reads_done = self.lookups();

        match save_action(topic_hit, duplicate_hit) {
            SaveAction::ReviseTopic(id) => {
                let params = revise_params(title, content, obs_type, tags, now.as_str(), id);
                self.exec(REVISE_OBSERVATION, params.as_slice())?;
                proof {
                    let rs = self.lookups().skip(start_reads.len() as int);
                    assert(spec_revise_params(self.log().last().params, title@, content@, obs_type@, tags_arg(tags), now@, id));
                    assert(save_decided(
                        rs,
                        self.log().last(),
                        title@,
                        content@,
                        obs_type@,
                        opt_str_view(project),
                        scope@,
                        opt_str_view(topic_key),
                        tags_arg(tags),
                        opt_str_view(session_id),
                    ));
                }
                self.get_observation(id)
            },
            SaveAction::CountDuplicate(id) => {
                let params = stamp_params(now, id);
                self.exec(COUNT_DUPLICATE, params.as_slice())?;
                proof {
                    let rs = self.lookups().skip(start_reads.len() as int);
                    assert(save_decided(
                        rs,
                        self.log().last(),
                        title@,
                        content@,
                        obs_type@,
                        opt_str_view(project),
                        scope@,
                        opt_str_view(topic_key),
                        tags_arg(tags),
                        opt_str_view(session_id),
                    ));
                }
                self.get_observation(id)
            },
            SaveAction::Insert => {
                let params = insert_params(title, content, obs_type, project, scope, topic_key, tags, session_id, now.as_str());
                self.exec(INSERT_OBSERVATION, params.as_slice())?;
                proof {
                    let rs = self.lookups().skip(start_reads.len() as int);
                    assert(spec_insert_params(
                        self.log().last().params,
                        title@,
                        content@,
                        obs_type@,
                        opt_str_view(project),
                        scope@,
                        opt_str_view(topic_key),
                        tags_arg(tags),
                        opt_str_view(session_id),
                        now@,
                    ));
                    assert(save_decided(
                        rs,
                        self.log().last(),
                        title@,
                        content@,
                        obs_type@,
                        opt_str_view(project),
                        scope@,
                        opt_str_view(topic_key),
                        tags_arg(tags),
                        opt_str_view(session_id),
                    ));
                }
                let id = self.last_insert_rowid();
                self.get_observation(id)
            },
        }
    }

    /// Fetches one observation by id (soft-deleted ones included); an
    /// engine "no rows" error when the id does not exist.
    pub fn get_observation(&self, id: i64) -> (r: DbResult<Observation>)
        ensures
            r matches Ok(o) ==> exists|rows: Seq<SqlRow>| #[trigger] spec_observation_by_id(r, rows, id),
            r matches Ok(o) ==> o.id == id,
            r matches Err(e) ==> e.code == ErrorCode::DatabaseError,
    {
        let rows = self.query(
            "SELECT id, session_id, type, title, content, project, scope,
                    topic_key, tags, revision_count, duplicate_count,
                    created_at, updated_at, deleted_at
             FROM observations WHERE id = ?1",
            &[SqlValue::Integer(id)],
        )?;
        let r = observation_by_id(&rows, id);
        proof {
            assert(spec_observation_by_id(r, rows@, id));
        }
        r
    }

    /// Updates the given fields of an observation (title and content with
    /// `<private>` blocks redacted), then returns it.
    #[verifier::rlimit(100)]
    #[verifier::spinoff_prover]
    pub fn update_observation(
        &mut self,
        id: i64,
        title: Option<&str>,
        content: Option<&str>,
        obs_type: Option<&str>,
        tags: Option<&[String]>,
        topic_key: Option<&str>,
    ) -> (r: DbResult<Observation>)
        ensures
            (title is None && content is None && obs_type is None && tags is None && topic_key is None)
                ==> (r matches Err(e) && e.code == ErrorCode::ValidationError),
            (obs_type matches Some(t) && !is_valid_observation_type(t@)) ==> (r matches Err(e) && e.code
                == ErrorCode::ValidationError),
            r matches Ok(o) ==> o.id == id,
            r matches Ok(o) ==> exists|rows: Seq<SqlRow>| #[trigger] spec_observation_by_id(r, rows, id),
            r is Ok ==> final(self).log() == old(self).log() + final(self).log().skip(old(self).log().len() as int)
                && update_writes(
                final(self).log().skip(old(self).log().len() as int),
                id,
                opt_str_view(title),
                opt_str_view(content),
                opt_str_view(obs_type),
                tags_arg(tags),
                opt_str_view(topic_key),
            ),
    {
        validate_update_has_fields(title, content, obs_type, tags, topic_key)?;
        if let Some(t) = obs_type {
            validate_observation_type(t)?;
        }
        let now = self.now_utc()?;
        let ghost start = self.log();
        let title_params = match title {
            Some(t) => Some(title_update_params(t, now.as_str(), id)),
            None => None,
        };
        let (done, Ghost(pa)) = self.write_piece(UPDATE_TITLE, title_params);
        done?;
        let content_params = match content {
            Some(c) => Some(content_update_params(c, now.as_str(), id)),
            None => None,
        };
        let (done, Ghost(pb)) = self.write_piece(UPDATE_CONTENT, content_params);
        done?;
        let type_params = match obs_type {
            Some(t) => Some(vec![text(t), SqlValue::Text(now.clone()), SqlValue::Integer(id)]),
            None => None,
        };
        let (done, Ghost(pc)) = self.write_piece(UPDATE_TYPE, type_params);
        done?;
        let tags_params = match tags {
            Some(t) => Some(vec![SqlValue::Text(string_array_text(t)), SqlValue::Text(now.clone()), SqlValue::Integer(id)]),
            None => None,
        };
        let (done, Ghost(pd)) = self.write_piece(UPDATE_TAGS, tags_params);
        done?;
        let topic_params = match topic_key {
            Some(tk) => Some(vec![text(tk), SqlValue::Text(now.clone()), SqlValue::Integer(id)]),
            None => None,
        };
        let (done, Ghost(pe)) = self.write_piece(UPDATE_TOPIC_KEY, topic_params);
        done?;
        assert(self.log() =~= start + (pa + pb + pc + pd + pe));
        proof {
            let ws = pa + pb + pc + pd + pe;
            assert(self.log().skip(start.len() as int) =~= ws);
            lemma_update_writes(ws, pa, pb, pc, pd, pe, id, opt_str_view(title), opt_str_view(content), opt_str_view(obs_type),
                tags_arg(tags), opt_str_view(topic_key));
        }
        self.get_observation(id)
    }

    /// Runs one write when parameters are given, none otherwise; the writes
    /// made come back beside the outcome.
    fn write_piece(&mut self, sql: &str, params: Option<Vec<SqlValue>>) -> (r: (DbResult<()>, Ghost<Seq<StoreWrite>>))
        ensures
            r.0 is Err ==> final(self).log() == old(self).log(),
            r.0 is Ok ==> final(self).log() == old(self).log() + r.1@,
            r.0 is Ok ==> (params matches Some(p) ==> r.1@.len() == 1 && r.1@[0].sql == sql@ && r.1@[0].params == p@),
            r.0 is Ok ==> (params is None ==> r.1@.len() == 0),
            r.0 matches Err(e) ==> e.code == ErrorCode::DatabaseError,
    {
        match params {
            Some(p) => match self.exec(sql, p.as_slice()) {
                Ok(_) => {
                    let ghost w = self.log().last();
                    proof {
                        assert(self.log() =~= old(self).log() + Seq::empty().push(w));
                    }
                    let piece: Ghost<Seq<StoreWrite>> = Ghost(Seq::empty().push(w));
                    (Ok(()), piece)
                },
                Err(e) => {
                    let piece: Ghost<Seq<StoreWrite>> = Ghost(Seq::empty());
                    (Err(e), piece)
                },
            },
            None => {
                proof {
                    assert(self.log() =~= old(self).log() + Seq::<StoreWrite>::empty());
                }
                let piece: Ghost<Seq<StoreWrite>> = Ghost(Seq::empty());
                (Ok(()), piece)
            },
        }
    }

    /// Soft-deletes an observation (keeps its data); `false` when it does
    /// not exist or is already deleted.
    pub fn delete_observation(&mut self, id: i64) -> (r: DbResult<bool>)
        ensures
            r matches Err(e) ==> e.code == ErrorCode::DatabaseError && final(self).log() == old(self).log(),
            r matches Ok(b) ==> stamped_once(old(self).log(), final(self).log(), SOFT_DELETE_OBSERVATION@, id) && b
                == (final(self).log().last().changed > 0),
    {
        let now = self.now_utc()?;
        let params = stamp_params(now, id);
        let affected = self.exec(SOFT_DELETE_OBSERVATION, params.as_slice())?;
        Ok(affected > 0)
    }

    /// Observations no entity mention links yet, eligible for entity
    /// backfill: never-reviewed ones first, then those reviewed more than
    /// `reconsider_after_days` (at least 0) days ago, oldest first; between
    /// 1 and 50 of them.
    pub fn list_backfill_candidates(
        &self,
        project: Option<&str>,
        scope: Option<&str>,
        limit: i64,
        reconsider_after_days: i64,
    ) -> (r: DbResult<Vec<BackfillCandidate>>)
        ensures
            r matches Ok(v) ==> v@.len() <= clamp_limit(limit),
            r matches Err(e) ==> e.code == ErrorCode::DatabaseError,
    {
        let requested = limit;
        let limit = clamp_backfill_limit(limit);
        let days = if reconsider_after_days < 0 { 0 } else { reconsider_after_days };
        let rows = self.query(
            "SELECT id, title, content, type, created_at, entities_reviewed_at
             FROM observations
             WHERE deleted_at IS NULL
               AND NOT EXISTS (SELECT 1 FROM mentions m WHERE m.observation_id = observations.id)
               AND (entities_reviewed_at IS NULL
                    OR entities_reviewed_at < datetime('now', '-' || ?1 || ' days'))
               AND (?2 IS NULL OR project = ?2)
               AND (?3 IS NULL OR scope = ?3)
             ORDER BY entities_reviewed_at IS NULL DESC, entities_reviewed_at ASC, created_at ASC
             LIMIT ?4",
            &[SqlValue::Integer(days), opt_text(project), opt_text(scope), SqlValue::Integer(limit)],
        )?;
        let mut out: Vec<BackfillCandidate> = Vec::new();
        let mut i: usize = 0;
        while i < rows.len() && (out.len() as u64) < (limit as u64)
            invariant
                1 <= limit <= 50,
                limit == clamp_limit(requested),
                out@.len() <= limit,
                i <= rows.len(),
            decreases rows.len() - i,
        {
            let row = &rows[i];
            out.push(BackfillCandidate {
                id: get_int(row, 0, 0),
                title: get_text(row, 1),
                content: get_text(row, 2),
                observation_type: get_text(row, 3),
                created_at: get_text(row, 4),
                entities_reviewed_at: get_opt_text(row, 5),
            });
            i += 1;
        }
        Ok(out)
    }

    /// Marks an observation as evaluated for entity backfill; `false` when
    /// it does not exist or is soft-deleted.
    pub fn mark_entities_reviewed(&mut self, id: i64) -> (r: DbResult<bool>)
        ensures
            r matches Err(e) ==> e.code == ErrorCode::DatabaseError && final(self).log() == old(self).log(),
            r matches Ok(b) ==> stamped_once(old(self).log(), final(self).log(), MARK_REVIEWED@, id) && b
                == (final(self).log().last().changed > 0),
    {
        let now = self.now_utc()?;
        let params = stamp_params(now, id);
        let affected = self.exec(MARK_REVIEWED, params.as_slice())?;
        Ok(affected > 0)
    }
}

/// A backfill page size: `limit` clamped to 1..=50.
pub open spec fn clamp_limit(limit: i64) -> i64 {
    if limit < 1 { 1 } else if limit > 50 { 50 } else { limit }
}

/// Clamps a backfill page size to 1..=50.
pub fn clamp_backfill_limit(limit: i64) -> (r: i64)
    ensures
        r == clamp_limit(limit),
{
    if limit < 1 { 1 } else if limit > 50 { 50 } else { limit }
}

} // verus!
