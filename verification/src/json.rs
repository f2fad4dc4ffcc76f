//! A mathematical model of JSON values, and trusted access to the
//! `serde_json` parser.
//!
//! Parsed documents are carried as opaque `serde_json::Value`s; every
//! fact the rest of the library knows about them goes through the
//! `json_value` model and the small trusted accessors below, so the
//! shape of a document (which fields exist, what they hold) is checked
//! by verified code, not by the parser.

use vstd::prelude::*;

verus! {

/// The mathematical shape of a JSON value.
///
/// A number the parser keeps only in floating form — a fraction, an
/// exponent form, or an integer outside 64-bit range — is collapsed
/// into `NonIntegral`: the library never reads such values.
pub enum JsonData {
    Null,
    Bool(bool),
    Num(int),
    NonIntegral,
    Str(Seq<char>),
    Arr(Seq<JsonData>),
    Obj(Map<Seq<char>, JsonData>),
}

#[verifier::external_type_specification]
#[verifier::external_body]
pub struct ExJsonValue(serde_json::Value);

/// The model of one parsed JSON value.
pub uninterp spec fn json_value(v: serde_json::Value) -> JsonData;

/// What a byte string parses to: `None` when it is not valid JSON.
pub uninterp spec fn json_of(bytes: Seq<u8>) -> Option<JsonData>;

/// Relies on `serde_json::from_slice::<Value>`: parsing is a function
/// of the input bytes alone, and succeeds exactly on valid JSON.
#[verifier::external_body]
pub fn parse_json(bytes: &[u8]) -> (r: Option<serde_json::Value>)
    ensures
        match r {
            Some(v) => json_of(bytes@) == Some(json_value(v)),
            None => json_of(bytes@) is None,
        },
{
    serde_json::from_slice::<serde_json::Value>(bytes).ok()
}

/// Relies on `serde_json::Value::get`: on an object it looks the key
/// up, on anything else it returns `None`.
#[verifier::external_body]
pub fn json_get<'a>(v: &'a serde_json::Value, key: &str) -> (r: Option<&'a serde_json::Value>)
    ensures
        match r {
            Some(f) => json_value(*v) matches JsonData::Obj(m) && m.contains_key(key@)
                && json_value(*f) == m[key@],
            None => !(json_value(*v) matches JsonData::Obj(m) && m.contains_key(key@)),
        },
{
    v.get(key)
}

/// Relies on `serde_json::Value::as_str`: `Some` exactly on a string.
#[verifier::external_body]
pub fn json_str(v: &serde_json::Value) -> (r: Option<String>)
    ensures
        match r {
            Some(s) => json_value(*v) == JsonData::Str(s@),
            None => !(json_value(*v) matches JsonData::Str(_)),
        },
{
    match v.as_str() {
        Some(s) => Some(s.to_string()),
        None => None,
    }
}

/// Relies on `serde_json::Value::as_i64`: `Some` exactly on an integer
/// number that fits in an `i64`.
#[verifier::external_body]
pub fn json_i64(v: &serde_json::Value) -> (r: Option<i64>)
    ensures
        match json_value(*v) {
            JsonData::Num(m) => {
                if i64::MIN <= m <= i64::MAX {
                    r == Some(m as i64)
                } else {
                    r is None
                }
            },
            _ => r is None,
        },
{
    v.as_i64()
}

/// Relies on `serde_json::Value::is_null`.
#[verifier::external_body]
pub fn json_is_null(v: &serde_json::Value) -> (r: bool)
    ensures
        r <==> json_value(*v) == JsonData::Null,
{
    v.is_null()
}

/// Relies on `serde_json::Value::as_array` (and `Vec::clone`): `Some`
/// exactly on an array, with the elements in order.
#[verifier::external_body]
pub fn json_array(v: &serde_json::Value) -> (r: Option<Vec<serde_json::Value>>)
    ensures
        match r {
            Some(items) => json_value(*v) matches JsonData::Arr(s) && items@.len() == s.len()
                && forall|i: int| 0 <= i < s.len() ==> json_value(items@[i]) == s[i],
            None => !(json_value(*v) matches JsonData::Arr(_)),
        },
{
    match v.as_array() {
        Some(items) => Some(items.clone()),
        None => None,
    }
}

} // verus!
