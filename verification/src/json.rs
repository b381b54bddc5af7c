//! Reading JSON that a model wrote. A document is held as text, and so is each part
//! taken out of it; serde_json reads the text.

use vstd::prelude::*;
use crate::text::{each_chars, opt_chars};

verus! {

/// Why `text` is not JSON, in serde_json's words; `None` where it is JSON.
pub uninterp spec fn json_failure_of(text: Seq<char>) -> Option<Seq<char>>;

/// The member `key` of the JSON object `text`, written as JSON; `None` where `text` is
/// not JSON, is no object or has no such member.
pub uninterp spec fn json_member_of(text: Seq<char>, key: Seq<char>) -> Option<Seq<char>>;

/// The string that the JSON `text` is; `None` where it is anything else.
pub uninterp spec fn json_string_of(text: Seq<char>) -> Option<Seq<char>>;

/// The elements of the JSON array `text`, each written as JSON; `None` where `text` is
/// anything else.
pub uninterp spec fn json_elements_of(text: Seq<char>) -> Option<Seq<Seq<char>>>;

/// Reads `text` with serde_json's `from_str` into a `Value` and gives the error's
/// text, if it fails. Trusted: that the answer depends on `text` alone.
#[verifier::external_body]
pub(crate) fn json_failure(text: &str) -> (r: Option<String>)
    ensures
        opt_chars(r) == json_failure_of(text@),
{
    serde_json::from_str::<serde_json::Value>(text).err().map(|e| e.to_string())
}

/// Reads `text` into a `Value` and calls its `get` with `key`; the member found is
/// written back as JSON. Trusted: that the answer depends on `text` and `key` alone.
#[verifier::external_body]
pub(crate) fn json_member(text: &str, key: &str) -> (r: Option<String>)
    ensures
        opt_chars(r) == json_member_of(text@, key@),
{
    let value = serde_json::from_str::<serde_json::Value>(text).ok()?;
    value.get(key).map(|member| member.to_string())
}

/// Reads `text` into a `Value` and calls its `as_str`. Trusted: that the answer
/// depends on `text` alone.
#[verifier::external_body]
pub(crate) fn json_string(text: &str) -> (r: Option<String>)
    ensures
        opt_chars(r) == json_string_of(text@),
{
    let value = serde_json::from_str::<serde_json::Value>(text).ok()?;
    value.as_str().map(|s| s.to_owned())
}

/// Reads `text` into a `Value` and calls its `as_array`; each element is written back
/// as JSON. Trusted: that the answer depends on `text` alone.
#[verifier::external_body]
pub(crate) fn json_elements(text: &str) -> (r: Option<Vec<String>>)
    ensures
        match r {
            Some(v) => json_elements_of(text@) == Some(each_chars(v@)),
            None => json_elements_of(text@) is None,
        },
{
    let value = serde_json::from_str::<serde_json::Value>(text).ok()?;
    value.as_array().map(|items| items.iter().map(|item| item.to_string()).collect())
}

/// The member `key` of the object `json`, where it is a string.
pub open spec fn text_member_of(json: Seq<char>, key: Seq<char>) -> Option<Seq<char>> {
    match json_member_of(json, key) {
        Some(member) => json_string_of(member),
        None => None,
    }
}

/// The elements of the member `key` of the object `json`, where it is an array.
pub open spec fn elements_member_of(json: Seq<char>, key: Seq<char>) -> Option<Seq<Seq<char>>> {
    match json_member_of(json, key) {
        Some(member) => json_elements_of(member),
        None => None,
    }
}

/// The member `key` of the object `json`, where it is a string.
pub fn text_member(json: &str, key: &str) -> (r: Option<String>)
    ensures
        opt_chars(r) == text_member_of(json@, key@),
{
    match json_member(json, key) {
        Some(member) => json_string(member.as_str()),
        None => None,
    }
}

/// The elements of the member `key` of the object `json`, where it is an array.
pub fn elements_member(json: &str, key: &str) -> (r: Option<Vec<String>>)
    ensures
        match r {
            Some(v) => elements_member_of(json@, key@) == Some(each_chars(v@)),
            None => elements_member_of(json@, key@) is None,
        },
{
    match json_member(json, key) {
        Some(member) => json_elements(member.as_str()),
        None => None,
    }
}

} // verus!
