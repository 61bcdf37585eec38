//! JSON documents.
//!
//! Documents are parsed and read by `serde_json`. A parsed value is carried
//! as it is; what the library reads from it is named here.

use serde_json::Value;
use vstd::prelude::*;

verus! {

/// A parsed JSON value.
#[verifier::external_type_specification]
#[verifier::external_body]
pub struct ExValue(Value);

/// Why a text is no JSON document.
#[verifier::external_type_specification]
#[verifier::external_body]
pub struct ExJsonError(serde_json::Error);

/// The value that a text parses to, or `None` where the text is no JSON
/// document.
pub uninterp spec fn json_document(text: Seq<char>) -> Option<Value>;

/// The member `key` of an object; the null value where `value` is no object
/// or has no such member.
pub uninterp spec fn json_member(value: Value, key: Seq<char>) -> Value;

/// The text of a JSON string, or `None` for any other value.
pub uninterp spec fn json_text(value: Value) -> Option<Seq<char>>;

/// The members of an object, each with its number as the bit pattern of a
/// binary64, or with `None` where the member is no number. `None` where
/// `value` is no object.
pub uninterp spec fn json_number_entries(value: Value) -> Option<Seq<(Seq<char>, Option<u64>)>>;

/// The contents of a list of members.
pub open spec fn entries_view(list: Seq<(String, Option<u64>)>) -> Seq<(Seq<char>, Option<u64>)> {
    Seq::new(list.len(), |i: int| (list[i].0@, list[i].1))
}

/// Parses a JSON document.
///
/// Calls `serde_json::from_str` for a `serde_json::Value`. The contract
/// names the outcome `json_document`: nothing is proved of which texts
/// parse, nor of the value, but that both depend on the text alone.
#[verifier::external_body]
pub fn parse_json(data: String) -> (parsed: Result<Value, serde_json::Error>)
    ensures
        match parsed {
            Ok(value) => json_document(data@) == Some(value),
            Err(_) => json_document(data@) is None,
        },
{
    serde_json::from_str(&data)
}

/// The member `key` of `value`.
///
/// Indexes the value with a string, by the `Index` impl of
/// `serde_json::Value`, which gives the null value where there is no such
/// member. The contract names the outcome.
#[verifier::external_body]
pub(crate) fn member<'a>(value: &'a Value, key: &str) -> (found: &'a Value)
    ensures
        *found == json_member(*value, key@),
{
    &value[key]
}

/// The text of a JSON string.
///
/// Calls `serde_json::Value::as_str` and copies the text. The contract names
/// the outcome.
#[verifier::external_body]
pub(crate) fn text_of(value: &Value) -> (text: Option<String>)
    ensures
        match text {
            Some(t) => json_text(*value) == Some(t@),
            None => json_text(*value) is None,
        },
{
    value.as_str().map(|text| text.to_string())
}

/// The members of an object with their numbers.
///
/// Calls `serde_json::Value::as_object`, walks the members by
/// `serde_json::Map::iter`, and takes each member's number by
/// `Value::as_f64`, as its bit pattern. The contract names the outcome.
#[verifier::external_body]
pub(crate) fn number_entries(value: &Value) -> (found: Option<Vec<(String, Option<u64>)>>)
    ensures
        match found {
            Some(list) => json_number_entries(*value) == Some(entries_view(list@)),
            None => json_number_entries(*value) is None,
        },
{
    value.as_object().map(
        |object|
            object.iter().map(|(key, item)| (key.clone(), item.as_f64().map(|n| n.to_bits()))).collect(),
    )
}

} // verus!
