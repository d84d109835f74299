//! The members of the small JSON replies that the platform's endpoints
//! send back (`{"ok": bool, "message"?: String, ...}`).
use vstd::prelude::*;

verus! {

/// One member of a JSON object, as far as the reply logic reads it.
#[derive(Debug, Clone, PartialEq, Eq)]
pub enum JsonField {
    /// The member is missing, or the body is not a JSON object.
    Absent,
    Bool(bool),
    Str(String),
    /// A number, with its value where it is a `u64`.
    Number(Option<u64>),
    /// `null`, an array or an object.
    Other,
}

/// The abstract value of a [`JsonField`].
pub enum JsonValue {
    Absent,
    Bool(bool),
    Str(Seq<char>),
    Number(Option<u64>),
    Other,
}

impl View for JsonField {
    type V = JsonValue;

    open spec fn view(&self) -> JsonValue {
        match self {
            JsonField::Absent => JsonValue::Absent,
            JsonField::Bool(b) => JsonValue::Bool(*b),
            JsonField::Str(s) => JsonValue::Str(s@),
            JsonField::Number(n) => JsonValue::Number(*n),
            JsonField::Other => JsonValue::Other,
        }
    }
}

/// What `serde_json::from_str::<serde_json::Value>(body)` followed by
/// `Value::get(key)` gives for a reply body: the member `key`, read as a
/// [`JsonValue`] (`Absent` where the body does not parse or is no object).
pub uninterp spec fn reply_member_of(body: Seq<char>, key: Seq<char>) -> JsonValue;

/// Parses `body` with `serde_json` and reads its member `key`
/// (`serde_json::from_str`, `Value::get`, `Number::as_u64`). The contract
/// names the outcome by the body and the key alone.
#[verifier::external_body]
pub fn reply_member(body: &str, key: &str) -> (r: JsonField)
    ensures
        r@ == reply_member_of(body@, key@),
{
    let value: serde_json::Value = match serde_json::from_str(body) {
        Ok(value) => value,
        Err(_) => return JsonField::Absent,
    };
    match value.get(key) {
        None => JsonField::Absent,
        Some(serde_json::Value::Bool(b)) => JsonField::Bool(*b),
        Some(serde_json::Value::String(s)) => JsonField::Str(s.clone()),
        Some(serde_json::Value::Number(n)) => JsonField::Number(n.as_u64()),
        Some(_) => JsonField::Other,
    }
}

/// `Value::as_str` on a member: its text when it is a string.
pub open spec fn member_text(f: JsonValue) -> Option<Seq<char>> {
    match f {
        JsonValue::Str(s) => Some(s),
        _ => None,
    }
}

/// `value.get("message").or_else(|| value.get("error")).and_then(Value::as_str)`:
/// the `error` member is read only where `message` is missing.
pub open spec fn rejection_text(message: JsonValue, error: JsonValue) -> Option<Seq<char>> {
    match message {
        JsonValue::Absent => member_text(error),
        _ => member_text(message),
    }
}

/// The text of a string member, or `default`.
pub fn text_or(f: &JsonField, default: &str) -> (r: String)
    ensures
        r@ == match member_text(f@) {
            Some(t) => t,
            None => default@,
        },
{
    match f {
        JsonField::Str(s) => s.clone(),
        _ => String::from_str(default),
    }
}

/// The text of the rejection: `message`, or `error` where `message` is
/// missing, when it is a string; `default` otherwise.
pub fn rejection_or(message: &JsonField, error: &JsonField, default: &str) -> (r: String)
    ensures
        r@ == match rejection_text(message@, error@) {
            Some(t) => t,
            None => default@,
        },
{
    match message {
        JsonField::Absent => text_or(error, default),
        _ => text_or(message, default),
    }
}

} // verus!
