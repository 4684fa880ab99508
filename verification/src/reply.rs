//! Reading the worker's answer to the shutdown request.

use vstd::prelude::*;

verus! {

/// `serde_json::Value`, a parsed JSON document. Nothing is known of what
/// is inside one but what [`text_members`] names.
#[verifier::external_type_specification]
#[verifier::external_body]
pub struct ExJsonValue(serde_json::Value);

/// `serde_json::Error`, the reason why a text is no JSON document. It is
/// carried, never read.
#[verifier::external_type_specification]
#[verifier::external_body]
pub struct ExJsonError(serde_json::Error);

/// The members of a JSON value that are texts, by their names: for a JSON
/// object, each name whose member is a string, with that string; for any
/// other value, nothing.
pub uninterp spec fn text_members(value: serde_json::Value) -> Map<Seq<char>, Seq<char>>;

/// What `serde_json::from_slice` makes of `body`, as far as its members that
/// are texts go: nothing where `body` is no JSON document.
pub uninterp spec fn parsed_text_members(body: Seq<u8>) -> Option<Map<Seq<char>, Seq<char>>>;

/// Calls `serde_json::from_slice` for a `serde_json::Value`. The parser
/// reads nothing but `body`, so equal bodies give equal results; that
/// result is what [`parsed_text_members`] names.
#[verifier::external_body]
fn parse_json(body: &[u8]) -> (parsed: Result<serde_json::Value, serde_json::Error>)
    ensures
        match parsed {
            Ok(value) => parsed_text_members(body@) == Some(text_members(value)),
            Err(_) => parsed_text_members(body@) is None,
        },
{
    serde_json::from_slice::<serde_json::Value>(body)
}

/// Calls `serde_json::Value::get` with a name. It finds a member only in a
/// JSON object that has one of that name; of the member found, a string is
/// handed on and anything else is not.
#[verifier::external_body]
fn text_member(value: &serde_json::Value, name: &str) -> (found: Option<String>)
    ensures
        match found {
            Some(text) => text_members(*value).contains_key(name@) && text_members(
                *value,
            )[name@] == text@,
            None => !text_members(*value).contains_key(name@),
        },
{
    match value.get(name) {
        Some(serde_json::Value::String(text)) => Some(text.clone()),
        _ => None,
    }
}

/// The message in the worker's answer: the member `message` of the JSON
/// object that the body holds, where the body is one and that member is a
/// text.
pub open spec fn message_in(body: Seq<u8>) -> Option<Seq<char>> {
    match parsed_text_members(body) {
        Some(members) => if members.contains_key("message"@) {
            Some(members["message"@])
        } else {
            None
        },
        None => None,
    }
}

/// Reads the message out of the body of the worker's answer.
pub fn read_message(body: &[u8]) -> (message: Option<String>)
    ensures
        match message {
            Some(text) => message_in(body@) == Some(text@),
            None => message_in(body@) is None,
        },
{
    match parse_json(body) {
        Ok(value) => text_member(&value, "message"),
        Err(_) => None,
    }
}

} // verus!
