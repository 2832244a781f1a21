use vstd::prelude::*;
use crate::text::{concat_str, entity_slug, spec_entity_slug};

verus! {

/// The suggested topic key: the slugged type, a `/`, then the slug of the
/// title (or of the content when the title has no letters or digits).
pub open spec fn spec_suggest_topic_key(obs_type: Seq<char>, title: Seq<char>, content: Seq<char>) -> Seq<char> {
    let subject = if spec_entity_slug(title).len() > 0 {
        spec_entity_slug(title)
    } else {
        spec_entity_slug(content)
    };
    spec_entity_slug(obs_type) + "/"@ + subject
}

/// Generates a consistent `topic_key` so that related memories share a key
/// and later saves update in place, e.g. ("decision", "Use PostgreSQL", _)
/// gives "decision/use-postgresql".
pub fn suggest_topic_key(obs_type: &str, title: &str, content: &str) -> (r: String)
    ensures
        r@ == spec_suggest_topic_key(obs_type@, title@, content@),
{
    let kind = entity_slug(obs_type);
    let from_title = entity_slug(title);
    let subject = if from_title.unicode_len() > 0 {
        from_title
    } else {
        entity_slug(content)
    };
    let prefix = concat_str(kind.as_str(), "/");
    concat_str(prefix.as_str(), subject.as_str())
}

} // verus!
