//! The JSON form of the versions file: a JSON array of version strings,
//! read and written by `serde_json`.

use vstd::prelude::*;

verus! {

/// The character views of a sequence of strings.
pub open spec fn string_views(v: Seq<String>) -> Seq<Seq<char>> {
    v.map_values(|s: String| s@)
}

/// Names what `serde_json::from_str::<HashSet<String>>` reads from `text`: the
/// set of strings of a JSON array of strings, or `None` where `text` is not one.
pub uninterp spec fn json_string_set(text: Seq<char>) -> Option<Set<Seq<char>>>;

/// Names the text that `serde_json::to_string_pretty` writes for a list of strings.
pub uninterp spec fn json_pretty_strings(items: Seq<Seq<char>>) -> Seq<char>;

#[verifier::external_type_specification]
#[verifier::external_body]
pub struct ExJsonError(serde_json::Error);

/// Calls `serde_json::from_str::<HashSet<String>>` and lists the set it reads.
/// Claimed: it succeeds exactly where the named result is a set, and then the
/// listed strings are that set, each once (a `HashSet` holds no string twice).
/// The order of the list is the set's, and is not stated.
#[verifier::external_body]
pub(crate) fn read_json_string_set(text: &str) -> (r: Result<Vec<String>, serde_json::Error>)
    ensures
        r is Ok <==> json_string_set(text@) is Some,
        r matches Ok(v) ==> string_views(v@).to_set() == json_string_set(text@).unwrap()
            && string_views(v@).no_duplicates(),
{
    match serde_json::from_str::<std::collections::HashSet<String>>(text) {
        Ok(set) => Ok(set.into_iter().collect()),
        Err(e) => Err(e),
    }
}

/// Calls `serde_json::to_string_pretty` on a list of strings. Claimed: it
/// succeeds (its documentation names only two causes of failure, a `Serialize`
/// impl that fails and a map with keys that are not strings, and a list of
/// strings has neither); the text written is the named result for the list;
/// and reading it back as a set of strings gives the set of the list (JSON
/// strings are escaped and unescaped without loss).
#[verifier::external_body]
pub(crate) fn write_json_pretty_strings(items: &Vec<String>) -> (r: Result<String, serde_json::Error>)
    ensures
        r is Ok,
        r matches Ok(t) ==> t@ == json_pretty_strings(string_views(items@)) && json_string_set(t@)
            == Some(string_views(items@).to_set()),
{
    serde_json::to_string_pretty(items)
}

} // verus!
