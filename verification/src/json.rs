//! JSON text of tag lists, as `serde_json` writes and reads it.

use vstd::prelude::*;

verus! {

/// The tags a JSON text decodes to, when it is an array of strings.
pub uninterp spec fn json_string_array(s: Seq<char>) -> Option<Seq<Seq<char>>>;

/// The JSON text `serde_json` writes for an array of strings.
pub uninterp spec fn json_array_text(items: Seq<Seq<char>>) -> Seq<char>;

/// The character sequences of a list of strings.
pub open spec fn strings_view(v: Seq<String>) -> Seq<Seq<char>> {
    v.map_values(|s: String| s@)
}

/// `serde_json::from_str::<Vec<String>>`, with a failure read as "no tags".
#[verifier::external_body]
pub(crate) fn parse_string_array(s: &str) -> (r: Option<Vec<String>>)
    ensures
        r matches Some(v) ==> json_string_array(s@) == Some(strings_view(v@)),
        r is None ==> json_string_array(s@) is None,
{
    serde_json::from_str::<Vec<String>>(s).ok()
}

/// `serde_json::to_string` of a list of strings (which cannot fail); the
/// text it writes reads back, with `serde_json::from_str`, as the same
/// strings in the same order.
#[verifier::external_body]
pub(crate) fn string_array_text(v: &[String]) -> (r: String)
    ensures
        r@ == json_array_text(strings_view(v@)),
        json_string_array(r@) == Some(strings_view(v@)),
{
    serde_json::to_string(v).unwrap_or_default()
}

} // verus!
