//! Trusted readers of vendor JSON text.
//!
//! Vendors answer with JSON bodies; this module hands each read to
//! `serde_json` behind a contract.  Parsing is a function of the text alone,
//! so each reader's result is pinned by an uninterpreted name: the verified
//! protocol logic above these readers is stated, and proved, over those
//! names.

use vstd::prelude::*;

verus! {

/// Whether the JSON text `s` parses at all.
pub uninterp spec fn json_valid(s: Seq<char>) -> bool;

/// Relies on serde_json: whether `body` parses as a JSON document.
#[verifier::external_body]
pub(crate) fn is_valid_json(body: &str) -> (r: bool)
    ensures
        r == json_valid(body@),
{
    serde_json::from_str::<serde_json::Value>(body).is_ok()
}

/// The string value at top-level `key` of the JSON text `s`, if `s` parses
/// and holds one.
pub uninterp spec fn json_str_field(s: Seq<char>, key: Seq<char>) -> Option<Seq<char>>;

/// Relies on serde_json: parse `body` and read the string at top-level `key`.
#[verifier::external_body]
pub(crate) fn get_str_field(body: &str, key: &str) -> (r: Option<String>)
    ensures
        match r {
            Some(v) => json_str_field(body@, key@) == Some(v@),
            None => json_str_field(body@, key@) is None,
        },
{
    serde_json::from_str::<serde_json::Value>(body).ok().and_then(
        |v| v.get(key).and_then(|f| f.as_str()).map(|s| s.to_string()),
    )
}

/// The string value at `key1.key2` of the JSON text `s`, if present.
pub uninterp spec fn json_str_field2(s: Seq<char>, key1: Seq<char>, key2: Seq<char>) -> Option<
    Seq<char>,
>;

/// Relies on serde_json: parse `body` and read the string at `key1.key2`.
#[verifier::external_body]
pub(crate) fn get_str_field2(body: &str, key1: &str, key2: &str) -> (r: Option<String>)
    ensures
        match r {
            Some(v) => json_str_field2(body@, key1@, key2@) == Some(v@),
            None => json_str_field2(body@, key1@, key2@) is None,
        },
{
    serde_json::from_str::<serde_json::Value>(body).ok().and_then(
        |v| v.get(key1).and_then(|m| m.get(key2)).and_then(|f| f.as_str()).map(|s| s.to_string()),
    )
}

/// The boolean value at top-level `key` of the JSON text `s`, if present.
pub uninterp spec fn json_bool_field(s: Seq<char>, key: Seq<char>) -> Option<bool>;

/// Relies on serde_json: parse `body` and read the boolean at top-level `key`.
#[verifier::external_body]
pub(crate) fn get_bool_field(body: &str, key: &str) -> (r: Option<bool>)
    ensures
        r == json_bool_field(body@, key@),
{
    serde_json::from_str::<serde_json::Value>(body).ok().and_then(
        |v| v.get(key).and_then(|f| f.as_bool()),
    )
}

/// Whether the JSON text `s` parses and has any value at top-level `key`.
pub uninterp spec fn json_has_field(s: Seq<char>, key: Seq<char>) -> bool;

/// Relies on serde_json: parse `body` and test for top-level `key`.
#[verifier::external_body]
pub(crate) fn has_field(body: &str, key: &str) -> (r: bool)
    ensures
        r == json_has_field(body@, key@),
{
    serde_json::from_str::<serde_json::Value>(body).map(
        |v| v.get(key).is_some(),
    ).unwrap_or(false)
}

/// The rendering of the value at top-level `key` of `s`: a string keeps its
/// characters, any other value keeps its JSON text.
pub uninterp spec fn json_code_field(s: Seq<char>, key: Seq<char>) -> Option<Seq<char>>;

/// Relies on serde_json: parse `body` and render the value at `key` — the
/// characters of a string, or the JSON text of any other value.
#[verifier::external_body]
pub(crate) fn get_code_field(body: &str, key: &str) -> (r: Option<String>)
    ensures
        match r {
            Some(v) => json_code_field(body@, key@) == Some(v@),
            None => json_code_field(body@, key@) is None,
        },
{
    serde_json::from_str::<serde_json::Value>(body).ok().and_then(
        |v| v.get(key).map(
            |f| match f {
                serde_json::Value::String(s) => s.clone(),
                other => other.to_string(),
            },
        ),
    )
}

/// The `tokens` array of the JSON text `s`, each token reduced to its
/// `is_final` flag (absent means `false`) and its `text` (absent means
/// empty), in array order; `None` if `s` has no `tokens` array.
pub uninterp spec fn json_tokens(s: Seq<char>) -> Option<Seq<(bool, Seq<char>)>>;

/// Relies on serde_json: parse `body` and project each element of the
/// top-level `tokens` array to `(is_final, text)`.
#[verifier::external_body]
pub(crate) fn get_tokens(body: &str) -> (r: Option<Vec<(bool, String)>>)
    ensures
        match r {
            Some(v) => json_tokens(body@) == Some(
                v@.map_values(|p: (bool, String)| (p.0, p.1@)),
            ),
            None => json_tokens(body@) is None,
        },
{
    let parsed: serde_json::Value = serde_json::from_str(body).ok()?;
    let arr: &Vec<serde_json::Value> = parsed.get("tokens")?.as_array()?;
    Some(
        arr.iter().map(
            |t| (
                t.get("is_final").and_then(|f| f.as_bool()).unwrap_or(false),
                t.get("text").and_then(|f| f.as_str()).unwrap_or("").to_string(),
            ),
        ).collect(),
    )
}

} // verus!
