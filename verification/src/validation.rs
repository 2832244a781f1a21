use vstd::prelude::*;
use crate::errors::{ErrorCode, IgrisError};
use crate::text::{blank, concat_str, is_blank, str_eq};

verus! {

/// The memory categories an observation may have.
pub open spec fn is_valid_observation_type(t: Seq<char>) -> bool {
    t == "decision"@ || t == "architecture"@ || t == "bugfix"@ || t == "pattern"@ || t == "config"@
        || t == "discovery"@ || t == "learning"@ || t == "plan"@ || t == "manual"@
}

/// The visibility scopes of observations and entities.
pub open spec fn is_valid_scope(s: Seq<char>) -> bool {
    s == "project"@ || s == "personal"@
}

/// The kinds an entity may have.
pub open spec fn is_valid_entity_kind(k: Seq<char>) -> bool {
    k == "person"@ || k == "company"@ || k == "project"@ || k == "concept"@ || k == "place"@
        || k == "event"@ || k == "tool"@ || k == "other"@
}

/// Whether `t` names a memory category.
pub fn is_observation_type(t: &str) -> (r: bool)
    ensures
        r == is_valid_observation_type(t@),
{
    str_eq(t, "decision") || str_eq(t, "architecture") || str_eq(t, "bugfix") || str_eq(t, "pattern")
        || str_eq(t, "config") || str_eq(t, "discovery") || str_eq(t, "learning") || str_eq(t, "plan")
        || str_eq(t, "manual")
}

/// Whether `s` names a visibility scope.
pub fn is_scope(s: &str) -> (r: bool)
    ensures
        r == is_valid_scope(s@),
{
    str_eq(s, "project") || str_eq(s, "personal")
}

/// Whether `k` names an entity kind.
pub fn is_entity_kind(k: &str) -> (r: bool)
    ensures
        r == is_valid_entity_kind(k@),
{
    str_eq(k, "person") || str_eq(k, "company") || str_eq(k, "project") || str_eq(k, "concept")
        || str_eq(k, "place") || str_eq(k, "event") || str_eq(k, "tool") || str_eq(k, "other")
}

/// Rejects an empty or whitespace-only value, naming the field.
pub fn require_non_empty(value: &str, field: &str) -> (r: Result<(), IgrisError>)
    ensures
        r is Ok <==> !is_blank(value@),
        r matches Err(e) ==> e.code == ErrorCode::ValidationError && e.error@ == field@
            + " must not be empty"@,
{
    if blank(value) {
        Err(IgrisError::validation(concat_str(field, " must not be empty")))
    } else {
        Ok(())
    }
}

/// Rejects a memory category outside the known list.
pub fn validate_observation_type(t: &str) -> (r: Result<(), IgrisError>)
    ensures
        r is Ok <==> is_valid_observation_type(t@),
        r matches Err(e) ==> e.code == ErrorCode::ValidationError,
{
    if is_observation_type(t) {
        Ok(())
    } else {
        Err(IgrisError::validation(concat_str(
            "invalid type; expected one of decision, architecture, bugfix, pattern, config, discovery, learning, plan, manual: ",
            t,
        )))
    }
}

/// Rejects a scope other than `project` or `personal`.
pub fn validate_scope(s: &str) -> (r: Result<(), IgrisError>)
    ensures
        r is Ok <==> is_valid_scope(s@),
        r matches Err(e) ==> e.code == ErrorCode::ValidationError,
{
    if is_scope(s) {
        Ok(())
    } else {
        Err(IgrisError::validation(concat_str("invalid scope; expected project or personal: ", s)))
    }
}

/// When a save is acceptable: a title and content that say something, a
/// known category and a known scope.
pub open spec fn save_is_valid(title: Seq<char>, content: Seq<char>, t: Seq<char>, scope: Seq<char>) -> bool {
    !is_blank(title) && !is_blank(content) && is_valid_observation_type(t) && is_valid_scope(scope)
}

/// Checks the inputs of a save.
pub fn validate_save(title: &str, content: &str, obs_type: &str, scope: &str) -> (r: Result<(), IgrisError>)
    ensures
        r is Ok <==> save_is_valid(title@, content@, obs_type@, scope@),
        r matches Err(e) ==> e.code == ErrorCode::ValidationError,
{
    require_non_empty(title, "title")?;
    require_non_empty(content, "content")?;
    validate_observation_type(obs_type)?;
    validate_scope(scope)?;
    Ok(())
}

/// Rejects an empty search query.
pub fn validate_search_query(query: &str) -> (r: Result<(), IgrisError>)
    ensures
        r is Ok <==> !is_blank(query@),
        r matches Err(e) ==> e.code == ErrorCode::ValidationError,
{
    require_non_empty(query, "query")
}

/// Rejects a result limit below one.
pub fn validate_limit(limit: Option<i64>) -> (r: Result<(), IgrisError>)
    ensures
        r is Ok <==> (limit matches Some(n) ==> n >= 1),
        r matches Err(e) ==> e.code == ErrorCode::ValidationError,
{
    match limit {
        Some(n) if n < 1 => Err(IgrisError::validation(String::from_str("limit must be at least 1"))),
        _ => Ok(()),
    }
}

/// Rejects an update that would change nothing.
pub fn validate_update_has_fields(
    title: Option<&str>,
    content: Option<&str>,
    obs_type: Option<&str>,
    tags: Option<&[String]>,
    topic_key: Option<&str>,
) -> (r: Result<(), IgrisError>)
    ensures
        r is Ok <==> (title is Some || content is Some || obs_type is Some || tags is Some
            || topic_key is Some),
        r matches Err(e) ==> e.code == ErrorCode::ValidationError,
{
    if title.is_none() && content.is_none() && obs_type.is_none() && tags.is_none() && topic_key.is_none() {
        Err(IgrisError::validation(String::from_str("at least one field must be provided to update")))
    } else {
        Ok(())
    }
}

/// Checks the inputs of a session start.
pub fn validate_session(id: &str, project: &str) -> (r: Result<(), IgrisError>)
    ensures
        r is Ok <==> !is_blank(id@) && !is_blank(project@),
        r matches Err(e) ==> e.code == ErrorCode::ValidationError,
{
    require_non_empty(id, "session id")?;
    require_non_empty(project, "project")
}

/// Rejects an entity kind outside the known list.
pub fn validate_entity_kind(kind: &str) -> (r: Result<(), String>)
    ensures
        r is Ok <==> is_valid_entity_kind(kind@),
{
    if is_entity_kind(kind) {
        Ok(())
    } else {
        Err(concat_str(
            "invalid entity kind; expected one of person, company, project, concept, place, event, tool, other: ",
            kind,
        ))
    }
}

/// When an entity declaration is acceptable.
pub open spec fn entity_is_valid(kind: Seq<char>, name: Seq<char>, scope: Seq<char>) -> bool {
    is_valid_entity_kind(kind) && !is_blank(name) && is_valid_scope(scope)
}

/// Checks the inputs of an entity upsert.
pub fn validate_entity(kind: &str, name: &str, scope: &str) -> (r: Result<(), String>)
    ensures
        r is Ok <==> entity_is_valid(kind@, name@, scope@),
{
    validate_entity_kind(kind)?;
    if blank(name) {
        return Err(String::from_str("entity name must not be empty"));
    }
    if !is_scope(scope) {
        return Err(concat_str("invalid scope; expected project or personal: ", scope));
    }
    Ok(())
}

/// Rejects an entity update that would change nothing. The salience is
/// given as whether one was supplied.
pub fn validate_entity_update_has_fields(
    kind: Option<&str>,
    tier: Option<i32>,
    salience_given: bool,
    add_aliases: &[String],
) -> (r: Result<(), String>)
    ensures
        r is Ok <==> (kind is Some || tier is Some || salience_given || add_aliases@.len() > 0),
{
    if kind.is_none() && tier.is_none() && !salience_given && add_aliases.len() == 0 {
        Err(String::from_str("at least one of kind, tier, salience or add_aliases must be provided"))
    } else {
        Ok(())
    }
}

} // verus!
