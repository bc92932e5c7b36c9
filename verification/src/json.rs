//! The fields of JSON messages that the protocol parsers read, and the
//! string literals of the messages they send, through `serde_json`.
use vstd::prelude::*;

verus! {

/// What `serde_json::from_str::<Value>` says of `text`: `None` when it is a
/// JSON document, else the text of the error.
pub uninterp spec fn json_parse_error(text: Seq<char>) -> Option<Seq<char>>;

/// `serde_json::from_str::<serde_json::Value>`, keeping only the error text.
#[verifier::external_body]
pub(crate) fn json_error(text: &str) -> (r: Option<String>)
    ensures
        match json_parse_error(text@) {
            None => r is None,
            Some(m) => r matches Some(e) && e@ == m,
        },
{
    serde_json::from_str::<serde_json::Value>(text).err().map(|error| error.to_string())
}

/// The string value of member `key` of the JSON object in `text`, if there
/// is one (`Value::get` then `Value::as_str`).
pub uninterp spec fn json_string_field(text: Seq<char>, key: Seq<char>) -> Option<Seq<char>>;

/// `serde_json::from_str`, `Value::get(key)` and `Value::as_str`.
#[verifier::external_body]
pub(crate) fn json_str(text: &str, key: &str) -> (r: Option<String>)
    ensures
        match json_string_field(text@, key@) {
            None => r is None,
            Some(v) => r matches Some(s) && s@ == v,
        },
{
    serde_json::from_str::<serde_json::Value>(text)
        .ok()
        .and_then(|value| value.get(key).and_then(serde_json::Value::as_str).map(str::to_string))
}

/// The boolean value of member `key` of the JSON object in `text`, if there
/// is one (`Value::get` then `Value::as_bool`).
pub uninterp spec fn json_bool_field(text: Seq<char>, key: Seq<char>) -> Option<bool>;

/// `serde_json::from_str`, `Value::get(key)` and `Value::as_bool`.
#[verifier::external_body]
pub(crate) fn json_bool(text: &str, key: &str) -> (r: Option<bool>)
    ensures
        r == json_bool_field(text@, key@),
{
    serde_json::from_str::<serde_json::Value>(text)
        .ok()
        .and_then(|value| value.get(key).and_then(serde_json::Value::as_bool))
}

/// The compact rendering (`Value::to_string`) of the JSON document in `text`.
pub uninterp spec fn json_rendered(text: Seq<char>) -> Seq<char>;

/// `serde_json::from_str` then `Value::to_string`.
#[verifier::external_body]
pub(crate) fn json_render(text: &str) -> (r: String)
    requires
        json_parse_error(text@) is None,
    ensures
        r@ == json_rendered(text@),
{
    match serde_json::from_str::<serde_json::Value>(text) {
        Ok(value) => value.to_string(),
        Err(_) => String::new(),
    }
}

/// The JSON string literal, quotes and escapes included, that
/// `serde_json::to_string` writes for `text`.
pub uninterp spec fn json_quoted(text: Seq<char>) -> Seq<char>;

/// `serde_json::to_string` on a string.
#[verifier::external_body]
pub(crate) fn json_quote(text: &str) -> (r: String)
    ensures
        r@ == json_quoted(text@),
{
    match serde_json::to_string(text) {
        Ok(quoted) => quoted,
        Err(_) => String::new(),
    }
}

} // verus!
