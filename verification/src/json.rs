//! Reading JSON documents (model configuration files) through `serde_json`.
//!
//! A [`JsonDocument`] is viewed as the text it was parsed from; what the
//! library asks of a document is named as a function of that text.

use vstd::prelude::*;

verus! {

#[verifier::external_type_specification]
#[verifier::external_body]
pub struct ExJsonValue(serde_json::Value);

/// Whether `serde_json` accepts `text` as a JSON document.
pub uninterp spec fn json_parses(text: Seq<char>) -> bool;

/// Whether the document `text` is an object with a member named `key`
/// (`Value::get(key).is_some()`).
pub uninterp spec fn json_has_member(text: Seq<char>, key: Seq<char>) -> bool;

/// The member `key` of the document `text` when it is a JSON string
/// (`Value::get(key).and_then(Value::as_str)`).
pub uninterp spec fn json_string_member(text: Seq<char>, key: Seq<char>) -> Option<Seq<char>>;

/// The member `key` of the document `text` when it is a non-negative integer
/// that fits in `u64` (`value[key].as_u64()`).
pub uninterp spec fn json_u64_member(text: Seq<char>, key: Seq<char>) -> Option<u64>;

/// The member `key` of the document `text` when it is a JSON boolean
/// (`value[key].as_bool()`).
pub uninterp spec fn json_bool_member(text: Seq<char>, key: Seq<char>) -> Option<bool>;

/// A parsed JSON document together with the text it came from.
pub struct JsonDocument {
    value: serde_json::Value,
    text: Ghost<Seq<char>>,
}

impl View for JsonDocument {
    type V = Seq<char>;

    closed spec fn view(&self) -> Seq<char> {
        self.text@
    }
}

/// `serde_json::from_str::<serde_json::Value>`; on failure the error's
/// message. Claims that parsing succeeds exactly on the texts `json_parses`
/// accepts; nothing is said of the message.
#[verifier::external_body]
fn value_from_str(text: &str) -> (r: Result<serde_json::Value, String>)
    ensures
        r is Ok <==> json_parses(text@),
{
    serde_json::from_str::<serde_json::Value>(text).map_err(|e| e.to_string())
}

/// `Value::get(key).is_some()` on the document's value. Claims the answer is
/// `json_has_member` of the text the value was parsed from.
#[verifier::external_body]
fn value_has_member(doc: &JsonDocument, key: &str) -> (r: bool)
    ensures
        r == json_has_member(doc@, key@),
{
    doc.value.get(key).is_some()
}

/// `Value::get(key).and_then(Value::as_str)`, copied into a `String`.
/// Claims the result is `json_string_member` of the parsed text.
#[verifier::external_body]
fn value_string_member(doc: &JsonDocument, key: &str) -> (r: Option<String>)
    ensures
        match r {
            Some(s) => json_string_member(doc@, key@) == Some(s@),
            None => json_string_member(doc@, key@) is None,
        },
{
    doc.value.get(key).and_then(|v| v.as_str()).map(|s| s.to_string())
}

/// `value[key].as_u64()`. Claims the result is `json_u64_member` of the
/// parsed text.
#[verifier::external_body]
fn value_u64_member(doc: &JsonDocument, key: &str) -> (r: Option<u64>)
    ensures
        r == json_u64_member(doc@, key@),
{
    doc.value[key].as_u64()
}

/// `value[key].as_bool()`. Claims the result is `json_bool_member` of the
/// parsed text.
#[verifier::external_body]
fn value_bool_member(doc: &JsonDocument, key: &str) -> (r: Option<bool>)
    ensures
        r == json_bool_member(doc@, key@),
{
    doc.value[key].as_bool()
}

impl JsonDocument {
    /// Parses `text`; the error is `serde_json`'s message.
    pub fn parse(text: &str) -> (r: Result<JsonDocument, String>)
        ensures
            r is Ok <==> json_parses(text@),
            r matches Ok(d) ==> d@ == text@,
    {
        match value_from_str(text) {
            Ok(value) => Ok(JsonDocument { value, text: Ghost(text@) }),
            Err(e) => Err(e),
        }
    }

    /// Whether the top-level object has a member `key`.
    pub fn has_member(&self, key: &str) -> (r: bool)
        ensures
            r == json_has_member(self@, key@),
    {
        value_has_member(self, key)
    }

    /// The member `key` if it is a string.
    pub fn string_member(&self, key: &str) -> (r: Option<String>)
        ensures
            match r {
                Some(s) => json_string_member(self@, key@) == Some(s@),
                None => json_string_member(self@, key@) is None,
            },
    {
        value_string_member(self, key)
    }

    /// The member `key` if it is an unsigned 64-bit integer.
    pub fn u64_member(&self, key: &str) -> (r: Option<u64>)
        ensures
            r == json_u64_member(self@, key@),
    {
        value_u64_member(self, key)
    }

    /// The member `key` if it is a boolean.
    pub fn bool_member(&self, key: &str) -> (r: Option<bool>)
        ensures
            r == json_bool_member(self@, key@),
    {
        value_bool_member(self, key)
    }
}

} // verus!
