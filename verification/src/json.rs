//! What the library reads out of JSON documents.
//!
//! The documents are parsed by `serde_json`. Each question that the library
//! asks of a document has a name here, and one function that asks it; what is
//! decided on the answers is proved elsewhere.

use vstd::prelude::*;
use crate::text::text_of;

verus! {

/// What `serde_json` says against `content` as a JSON document; `None` where
/// `content` is one.
pub uninterp spec fn json_parse_error(content: Seq<char>) -> Option<Seq<char>>;

/// The text of member `key` of the JSON object `content`.
pub uninterp spec fn json_text(content: Seq<char>, key: Seq<char>) -> Option<Seq<char>>;

/// The text of member `inner` of the object that is member `outer` of the
/// JSON object `content`.
pub uninterp spec fn json_nested_text(content: Seq<char>, outer: Seq<char>, inner: Seq<char>) -> Option<Seq<char>>;

/// Whether member `outer` of the JSON object `content` has a member `inner`;
/// `None` where there is no member `outer`.
pub uninterp spec fn json_member_exists(content: Seq<char>, outer: Seq<char>, inner: Seq<char>) -> Option<bool>;

/// Parses `content` with `serde_json::from_str` into a `serde_json::Value`
/// and, where that fails, writes the error out through its `Display`. The
/// result is `None` where the text parses. The contract only gives the result
/// its name.
#[verifier::external_body]
pub(crate) fn parse_error(content: &str) -> (r: Option<String>)
    ensures
        text_of(r) == json_parse_error(content@),
{
    serde_json::from_str::<serde_json::Value>(content).err().map(|e| e.to_string())
}

/// Parses `content` with `serde_json::from_str` into a `serde_json::Value`,
/// looks `key` up with `Value::get` and reads the member with
/// `Value::as_str`. The result is `None` where the document does not parse or
/// is no object, where the member is missing, and where it is no JSON string.
/// The contract only gives the result its name.
#[verifier::external_body]
pub(crate) fn top_text(content: &str, key: &str) -> (r: Option<String>)
    ensures
        text_of(r) == json_text(content@, key@),
{
    let document: serde_json::Value = serde_json::from_str(content).ok()?;
    document.get(key)?.as_str().map(String::from)
}

/// Parses `content` with `serde_json::from_str` into a `serde_json::Value`,
/// follows `Value::get` twice, by `outer` and then by `inner`, and reads the
/// member with `Value::as_str`. The result is `None` where the document does
/// not parse, where either member is missing or is asked of something that is
/// no object, and where the inner member is no JSON string. The contract only
/// gives the result its name.
#[verifier::external_body]
pub(crate) fn member_text(content: &str, outer: &str, inner: &str) -> (r: Option<String>)
    ensures
        text_of(r) == json_nested_text(content@, outer@, inner@),
{
    let document: serde_json::Value = serde_json::from_str(content).ok()?;
    document.get(outer)?.get(inner)?.as_str().map(String::from)
}

/// Parses `content` with `serde_json::from_str` into a `serde_json::Value`,
/// looks `outer` up with `Value::get` and then `inner` in what it found. The
/// result is `None` where the document does not parse or has no member
/// `outer`; else it says whether the second lookup found a member, which it
/// does not where `outer` is no object. The contract only gives the result
/// its name.
#[verifier::external_body]
pub(crate) fn member_exists(content: &str, outer: &str, inner: &str) -> (r: Option<bool>)
    ensures
        r == json_member_exists(content@, outer@, inner@),
{
    let document: serde_json::Value = serde_json::from_str(content).ok()?;
    Some(document.get(outer)?.get(inner).is_some())
}

} // verus!
