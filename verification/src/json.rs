//! Access to `serde_json` documents.
//!
//! A `serde_json::Value` is carried as an opaque value; what the library
//! reads from one it reads through the functions below, each of which calls
//! one function of `serde_json`. Their contracts speak of a value by its
//! readings and the readings of its members.

use vstd::prelude::*;

verus! {

#[verifier::external_type_specification]
#[verifier::external_body]
pub struct ExValue(serde_json::Value);

#[verifier::external_type_specification]
#[verifier::external_body]
pub struct ExJsonError(serde_json::Error);

/// The members of the JSON document that `serde_json::from_str::<Value>`
/// builds from `text`, each by its readings (see [`json_readings`]); `None`
/// where `text` is not one JSON document. A document that is not an object
/// has no members.
pub uninterp spec fn json_parse(
    text: Seq<char>,
) -> Option<Map<Seq<char>, (Option<u64>, Option<i64>, Option<Seq<char>>, bool)>>;

/// The members of a JSON value, by key, each by its readings (see
/// [`json_readings`]); a value that is not an object has no members.
pub uninterp spec fn json_members(
    v: serde_json::Value,
) -> Map<Seq<char>, (Option<u64>, Option<i64>, Option<Seq<char>>, bool)>;

/// How a JSON value reads: as a `u64` (`as_u64`), as an `i64` (`as_i64`),
/// as a string (`as_str`), and whether it is a number (`is_number`).
pub uninterp spec fn json_readings(
    v: serde_json::Value,
) -> (Option<u64>, Option<i64>, Option<Seq<char>>, bool);

/// Calls `serde_json::from_str::<Value>`. It succeeds where `text` is one
/// JSON document, and the value it builds has the members that
/// [`json_parse`] names for the text.
#[verifier::external_body]
pub(crate) fn parse_json(text: &str) -> (r: Result<serde_json::Value, serde_json::Error>)
    ensures
        r is Ok <==> json_parse(text@) is Some,
        r matches Ok(v) ==> json_members(v) == json_parse(text@)->0,
{
    serde_json::from_str::<serde_json::Value>(text)
}

/// Calls `Value::get` with a string key: the member under that key, where
/// the value is an object that has one; it reads as the member's entry in
/// [`json_members`].
#[verifier::external_body]
pub(crate) fn json_get<'a>(v: &'a serde_json::Value, key: &str) -> (r: Option<&'a serde_json::Value>)
    ensures
        r is Some <==> json_members(*v).contains_key(key@),
        r matches Some(m) ==> json_readings(*m) == json_members(*v)[key@],
{
    v.get(key)
}

/// Calls `Value::as_u64`: the value's `u64` reading.
#[verifier::external_body]
pub(crate) fn json_as_u64(v: &serde_json::Value) -> (r: Option<u64>)
    ensures
        r == json_readings(*v).0,
{
    v.as_u64()
}

/// Calls `Value::as_i64`: the value's `i64` reading.
#[verifier::external_body]
pub(crate) fn json_as_i64(v: &serde_json::Value) -> (r: Option<i64>)
    ensures
        r == json_readings(*v).1,
{
    v.as_i64()
}

/// Calls `Value::as_str`: the value's string reading.
#[verifier::external_body]
pub(crate) fn json_as_str<'a>(v: &'a serde_json::Value) -> (r: Option<&'a str>)
    ensures
        match r {
            Some(s) => json_readings(*v).2 == Some(s@),
            None => json_readings(*v).2 is None,
        },
{
    v.as_str()
}

/// Calls `Value::is_number`: whether the value is a number.
#[verifier::external_body]
pub(crate) fn json_is_number(v: &serde_json::Value) -> (r: bool)
    ensures
        r == json_readings(*v).3,
{
    v.is_number()
}

/// Calls `Value::clone`: a copy that reads as the original and has the
/// same members.
#[verifier::external_body]
pub(crate) fn json_clone(v: &serde_json::Value) -> (r: serde_json::Value)
    ensures
        json_readings(r) == json_readings(*v),
        json_members(r) == json_members(*v),
{
    v.clone()
}

} // verus!
