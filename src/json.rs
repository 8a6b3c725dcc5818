//! Reading JSON documents through serde_json.
//!
//! A document is a `serde_json::Value`, opaque to the proofs. What the logic
//! reads of it is given a name below, one per accessor of serde_json, and the
//! accessors are reached through the wrappers of this module alone.

use vstd::prelude::*;

verus! {

#[verifier::external_type_specification]
#[verifier::external_body]
pub struct ExValue(serde_json::Value);

#[verifier::external_type_specification]
#[verifier::external_body]
pub struct ExJsonError(serde_json::Error);

/// Why a response could not be read.
#[derive(Clone, Copy, Debug, PartialEq, Eq, Structural)]
pub enum ResponseError {
    /// The body is not a JSON document.
    NotJson,
    /// A field that the logic needs is absent or of the wrong kind.
    MissingField,
}

/// The document that a text holds, if it holds one.
pub uninterp spec fn parsed_json(text: Seq<char>) -> Option<serde_json::Value>;

/// The member `key` of an object; nothing for a missing key or a non-object.
pub uninterp spec fn json_member(v: serde_json::Value, key: Seq<char>) -> Option<serde_json::Value>;

/// The elements of an array; nothing for a non-array.
pub uninterp spec fn json_items(v: serde_json::Value) -> Option<Seq<serde_json::Value>>;

/// The characters of a string; nothing for a non-string.
pub uninterp spec fn json_text(v: serde_json::Value) -> Option<Seq<char>>;

/// A number that is a non-negative integer; nothing for anything else.
pub uninterp spec fn json_count(v: serde_json::Value) -> Option<u64>;

/// Relies on serde_json::from_str: it parses a whole text into a document,
/// or fails where the text is not one.
#[verifier::external_body]
fn parse_document(text: &str) -> (r: Result<serde_json::Value, serde_json::Error>)
    ensures
        r matches Ok(v) ==> parsed_json(text@) == Some(v),
        r is Err ==> parsed_json(text@) is None,
{
    serde_json::from_str(text)
}

/// Relies on serde_json::Value::get with a string key: the member of that
/// name of an object.
#[verifier::external_body]
pub(crate) fn member(v: &serde_json::Value, key: &str) -> (r: Option<serde_json::Value>)
    ensures
        r == json_member(*v, key@),
{
    v.get(key).cloned()
}

/// Relies on serde_json::Value::as_array: the elements of an array, in order.
#[verifier::external_body]
fn elements(v: &serde_json::Value) -> (r: Option<Vec<serde_json::Value>>)
    ensures
        r matches Some(xs) ==> json_items(*v) == Some(xs@),
        r is None ==> json_items(*v) is None,
{
    v.as_array().cloned()
}

/// Relies on serde_json::Value::as_str: the contents of a string.
#[verifier::external_body]
fn characters(v: &serde_json::Value) -> (r: Option<String>)
    ensures
        r matches Some(s) ==> json_text(*v) == Some(s@),
        r is None ==> json_text(*v) is None,
{
    v.as_str().map(String::from)
}

/// Relies on serde_json::Value::as_u64: a number that fits a `u64`.
#[verifier::external_body]
fn count(v: &serde_json::Value) -> (r: Option<u64>)
    ensures
        r == json_count(*v),
{
    v.as_u64()
}

/// The member `key` of a value that may be absent.
pub open spec fn at(v: Option<serde_json::Value>, key: Seq<char>) -> Option<serde_json::Value> {
    match v {
        Some(x) => json_member(x, key),
        None => None,
    }
}

pub open spec fn items_at(v: Option<serde_json::Value>) -> Option<Seq<serde_json::Value>> {
    match v {
        Some(x) => json_items(x),
        None => None,
    }
}

pub open spec fn text_at(v: Option<serde_json::Value>) -> Option<Seq<char>> {
    match v {
        Some(x) => json_text(x),
        None => None,
    }
}

pub open spec fn count_at(v: Option<serde_json::Value>) -> Option<u64> {
    match v {
        Some(x) => json_count(x),
        None => None,
    }
}

/// The characters of an optional string.
pub open spec fn opt_chars(s: Option<String>) -> Option<Seq<char>> {
    match s {
        Some(x) => Some(x@),
        None => None,
    }
}

/// Parses a response body.
pub fn parse(text: &str) -> (r: Result<serde_json::Value, ResponseError>)
    ensures
        r matches Ok(v) ==> parsed_json(text@) == Some(v),
        r is Err ==> r == Err::<serde_json::Value, ResponseError>(ResponseError::NotJson)
            && parsed_json(text@) is None,
{
    match parse_document(text) {
        Ok(v) => Ok(v),
        Err(_) => Err(ResponseError::NotJson),
    }
}

/// The member `key` of a value that may be absent.
pub fn get(v: &Option<serde_json::Value>, key: &str) -> (r: Option<serde_json::Value>)
    ensures
        r == at(*v, key@),
{
    match v {
        Some(x) => member(x, key),
        None => None,
    }
}

pub fn elements_of(v: &Option<serde_json::Value>) -> (r: Option<Vec<serde_json::Value>>)
    ensures
        r matches Some(xs) ==> items_at(*v) == Some(xs@),
        r is None ==> items_at(*v) is None,
{
    match v {
        Some(x) => elements(x),
        None => None,
    }
}

pub fn get_text(v: &Option<serde_json::Value>) -> (r: Option<String>)
    ensures
        opt_chars(r) == text_at(*v),
{
    match v {
        Some(x) => characters(x),
        None => None,
    }
}

pub fn get_count(v: &Option<serde_json::Value>) -> (r: Option<u64>)
    ensures
        r == count_at(*v),
{
    match v {
        Some(x) => count(x),
        None => None,
    }
}

} // verus!
