//! The arguments of the tool server's tools.

use vstd::prelude::*;

verus! {

/// The memory category used when a save names none.
pub fn default_type() -> (r: String)
    ensures
        r@ == "manual"@,
{
    String::from_str("manual")
}

/// The visibility scope used when a save names none.
pub fn default_scope() -> (r: String)
    ensures
        r@ == "project"@,
{
    String::from_str("project")
}

/// Save a memory.
#[derive(Debug, Clone)]
pub struct SaveArgs {
    pub title: String,
    pub content: String,
    pub observation_type: String,
    pub project: Option<String>,
    pub scope: String,
    pub topic_key: Option<String>,
    pub tags: Option<Vec<String>>,
    pub session_id: Option<String>,
    pub mentions: Option<Vec<String>>,
}

/// Search memories.
#[derive(Debug, Clone)]
pub struct SearchArgs {
    pub query: String,
    pub observation_type: Option<String>,
    pub project: Option<String>,
    pub limit: Option<i64>,
}

/// Fetch one memory.
#[derive(Debug, Clone)]
pub struct GetArgs {
    pub id: i64,
}

/// Change fields of a memory.
#[derive(Debug, Clone)]
pub struct UpdateArgs {
    pub id: i64,
    pub title: Option<String>,
    pub content: Option<String>,
    pub observation_type: Option<String>,
    pub tags: Option<Vec<String>>,
    pub topic_key: Option<String>,
}

/// Soft-delete a memory.
#[derive(Debug, Clone)]
pub struct DeleteArgs {
    pub id: i64,
}

/// Load recent memories.
#[derive(Debug, Clone)]
pub struct ContextArgs {
    pub project: Option<String>,
    pub limit: Option<i64>,
}

/// The memories around one memory.
#[derive(Debug, Clone)]
pub struct TimelineArgs {
    pub observation_id: i64,
    pub before: Option<i64>,
    pub after: Option<i64>,
}

/// Remove soft-deleted memories for good.
#[derive(Debug, Clone)]
pub struct PurgeArgs {
    pub older_than_days: i64,
}

/// Import an export given as JSON text.
#[derive(Debug, Clone)]
pub struct ImportArgs {
    pub data: String,
}

/// Suggest a topic key.
#[derive(Debug, Clone)]
pub struct SuggestTopicKeyArgs {
    pub observation_type: String,
    pub title: String,
    pub content: String,
}

/// Start a session.
#[derive(Debug, Clone)]
pub struct SessionStartArgs {
    pub id: String,
    pub project: String,
    pub directory: Option<String>,
}

/// End a session.
#[derive(Debug, Clone)]
pub struct SessionEndArgs {
    pub id: String,
    pub summary: Option<String>,
}

/// Save a session summary.
#[derive(Debug, Clone)]
pub struct SessionSummaryArgs {
    pub content: String,
    pub project: String,
}

/// The names of the fields an update changes, in the order title,
/// content, type, tags, topic_key.
pub open spec fn spec_changed_fields(args: UpdateArgs) -> Seq<Seq<char>> {
    (if args.title is Some { seq!["title"@] } else { Seq::empty() })
        + (if args.content is Some { seq!["content"@] } else { Seq::empty() })
        + (if args.observation_type is Some { seq!["type"@] } else { Seq::empty() })
        + (if args.tags is Some { seq!["tags"@] } else { Seq::empty() })
        + (if args.topic_key is Some { seq!["topic_key"@] } else { Seq::empty() })
}

/// The names of the fields an update changes (reported when it starts).
pub fn changed_fields(args: &UpdateArgs) -> (r: Vec<&'static str>)
    ensures
        r@.map_values(|s: &'static str| s@) == spec_changed_fields(*args),
{
    let mut out: Vec<&'static str> = Vec::new();
    if args.title.is_some() {
        out.push("title");
    }
    if args.content.is_some() {
        out.push("content");
    }
    if args.observation_type.is_some() {
        out.push("type");
    }
    if args.tags.is_some() {
        out.push("tags");
    }
    if args.topic_key.is_some() {
        out.push("topic_key");
    }
    proof {
        assert(out@.map_values(|s: &'static str| s@) =~= spec_changed_fields(*args));
    }
    out
}

} // verus!
