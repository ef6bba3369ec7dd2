use vstd::prelude::*;
use crate::model::{entries_map, keys_distinct};

verus! {

#[verifier::external_type_specification]
#[verifier::external_body]
pub struct ExJsonError(serde_json::Error);

/// The JSON object text that serde_json writes for a string-to-string map.
pub uninterp spec fn json_text(m: Map<Seq<char>, Seq<char>>) -> Seq<char>;

/// The string-to-string map that serde_json reads from a text, if the text is
/// a JSON object whose values are all strings.
pub uninterp spec fn parsed_snapshot(t: Seq<char>) -> Option<Map<Seq<char>, Seq<char>>>;

/// Relies on `serde_json::to_string` on a `BTreeMap<String, String>`: it
/// cannot fail, since every key is a string and no `Serialize` impl involved
/// reports an error; the text
/// depends on the map alone (keys in sorted order), it is never empty (an
/// object is at least `{}`), and reading it back with
/// `serde_json::from_str` gives the same map.
#[verifier::external_body]
pub(crate) fn encode_entries(entries: &Vec<(String, String)>) -> (r: Result<
    String,
    serde_json::Error,
>)
    requires
        keys_distinct(entries@),
    ensures
        r is Ok,
        r matches Ok(t) ==> t@ == json_text(entries_map(entries@)) && t@.len() > 0
            && parsed_snapshot(t@) == Some(entries_map(entries@)),
{
    let m: std::collections::BTreeMap<&String, &String> = entries.iter().map(|e| (&e.0, &e.1)).collect();
    serde_json::to_string(&m)
}

/// Relies on `serde_json::from_str` into a `BTreeMap<String, String>`: it
/// succeeds exactly on a JSON object of strings, and the map's entries come
/// out once per key.
#[verifier::external_body]
pub(crate) fn decode_entries(text: &str) -> (r: Result<Vec<(String, String)>, serde_json::Error>)
    ensures
        r matches Ok(v) ==> keys_distinct(v@) && parsed_snapshot(text@) == Some(entries_map(v@)),
        r is Err ==> parsed_snapshot(text@) is None,
{
    serde_json::from_str::<std::collections::BTreeMap<String, String>>(text).map(
        |m| m.into_iter().collect(),
    )
}

/// Relies on the `Display` text of a `serde_json::Error`.
#[verifier::external_body]
pub(crate) fn json_error_text(e: &serde_json::Error) -> String {
    e.to_string()
}

} // verus!
