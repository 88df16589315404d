//! One decoded line of the child's primary output: the JSON value itself,
//! carried through untouched, and the well-known members that the classifier
//! reads, held as plain values.
use vstd::prelude::*;
use crate::text::opt_view;

verus! {

#[verifier::external_type_specification]
#[verifier::external_body]
pub struct ExValue(serde_json::Value);

/// Whether a text is one complete JSON document, as serde_json decides it.
pub uninterp spec fn is_json_text(s: Seq<char>) -> bool;

/// The string held by member `key` of the JSON object that `text` holds, if
/// the text decodes to an object with such a member and it is a string.
pub uninterp spec fn json_str_member(text: Seq<char>, key: Seq<char>) -> Option<Seq<char>>;

/// Whether `text` decodes to a JSON object with a member `key`.
pub uninterp spec fn json_has_member(text: Seq<char>, key: Seq<char>) -> bool;

/// Whether `text` decodes to a JSON object whose member `key` is an object.
pub uninterp spec fn json_object_member(text: Seq<char>, key: Seq<char>) -> bool;

/// The string held by member `inner` of member `key` of the JSON object that
/// `text` holds, if both exist and the inner one is a string.
pub uninterp spec fn json_nested_str_member(
    text: Seq<char>,
    key: Seq<char>,
    inner: Seq<char>,
) -> Option<Seq<char>>;

/// Relies on `serde_json::from_str` into `Value`: it succeeds exactly on JSON text.
#[verifier::external_body]
fn parse_value(s: &str) -> (r: Option<serde_json::Value>)
    ensures
        r.is_some() == is_json_text(s@),
{
    serde_json::from_str::<serde_json::Value>(s).ok()
}

/// Relies on `serde_json::from_str` into `Value`, then `Value::get` and
/// `Value::as_str`: a string member of the decoded object, a function of the
/// text and the key alone.
#[verifier::external_body]
fn str_member(text: &str, key: &str) -> (r: Option<String>)
    ensures
        opt_view(r) == json_str_member(text@, key@),
{
    let v = serde_json::from_str::<serde_json::Value>(text).ok()?;
    v.get(key).and_then(|m| m.as_str()).map(|m| m.to_owned())
}

/// Relies on `serde_json::from_str` into `Value`, then `Value::get`: whether
/// the decoded object has the member, a function of the text and the key alone.
#[verifier::external_body]
fn has_member(text: &str, key: &str) -> (r: bool)
    ensures
        r == json_has_member(text@, key@),
{
    match serde_json::from_str::<serde_json::Value>(text) {
        Ok(v) => v.get(key).is_some(),
        Err(_) => false,
    }
}

/// Relies on `serde_json::from_str` into `Value`, then `Value::get` and
/// `Value::is_object`: whether the member is an object, a function of the
/// text and the key alone.
#[verifier::external_body]
fn object_member(text: &str, key: &str) -> (r: bool)
    ensures
        r == json_object_member(text@, key@),
{
    match serde_json::from_str::<serde_json::Value>(text) {
        Ok(v) => v.get(key).map_or(false, |m| m.is_object()),
        Err(_) => false,
    }
}

/// Relies on `serde_json::from_str` into `Value`, then `Value::get` twice and
/// `Value::as_str`: a string member of a member object, a function of the
/// text and the two keys alone.
#[verifier::external_body]
fn nested_str_member(text: &str, key: &str, inner: &str) -> (r: Option<String>)
    ensures
        opt_view(r) == json_nested_str_member(text@, key@, inner@),
{
    let v = serde_json::from_str::<serde_json::Value>(text).ok()?;
    v.get(key).and_then(|m| m.get(inner)).and_then(|m| m.as_str()).map(|m| m.to_owned())
}

/// What a record's `error` member is.
pub enum ErrorField {
    /// No `error` member.
    Absent,
    /// An object; its `message` member when that is a string.
    Object(Option<String>),
    /// Any other value.
    Other,
}

/// A decoded record and the members that the classifier inspects. A member
/// that is missing, or is not a string where a string is expected, is `None`.
pub struct Record {
    pub value: serde_json::Value,
    pub session_id: Option<String>,
    pub kind: Option<String>,
    pub role: Option<String>,
    pub content: Option<String>,
    pub error: ErrorField,
    pub message: Option<String>,
}

/// `e` is what the `error` member of the object in `text` is.
pub open spec fn error_field_of(e: ErrorField, text: Seq<char>) -> bool {
    if !json_has_member(text, "error"@) {
        e is Absent
    } else if json_object_member(text, "error"@) {
        &&& e is Object
        &&& opt_view(e->Object_0) == json_nested_str_member(text, "error"@, "message"@)
    } else {
        e is Other
    }
}

/// The members of `r` are those that serde_json reads from `text`.
pub open spec fn fields_of(r: Record, text: Seq<char>) -> bool {
    &&& opt_view(r.session_id) == json_str_member(text, "session_id"@)
    &&& opt_view(r.kind) == json_str_member(text, "type"@)
    &&& opt_view(r.role) == json_str_member(text, "role"@)
    &&& opt_view(r.content) == json_str_member(text, "content"@)
    &&& opt_view(r.message) == json_str_member(text, "message"@)
    &&& error_field_of(r.error, text)
}

fn error_field(text: &str) -> (r: ErrorField)
    ensures
        error_field_of(r, text@),
{
    if !has_member(text, "error") {
        ErrorField::Absent
    } else if object_member(text, "error") {
        ErrorField::Object(nested_str_member(text, "error", "message"))
    } else {
        ErrorField::Other
    }
}

/// Decodes one line of primary output; `None` when it is not JSON, else the
/// decoded value with the members read from the same text.
pub fn decode_record(line: &str) -> (r: Option<Record>)
    ensures
        r.is_some() == is_json_text(line@),
        r is Some ==> fields_of(r->0, line@),
{
    match parse_value(line) {
        Some(value) => Some(
            Record {
                value,
                session_id: str_member(line, "session_id"),
                kind: str_member(line, "type"),
                role: str_member(line, "role"),
                content: str_member(line, "content"),
                error: error_field(line),
                message: str_member(line, "message"),
            },
        ),
        None => None,
    }
}

} // verus!
