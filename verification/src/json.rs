//! The JSON reading the decoder relies on, behind a small trusted surface.
//!
//! A line is one JSON object; the decoder only ever asks for single fields
//! of it. Each query below parses the line with serde_json and reads one
//! field. What a query returns is a function of the line and the key alone,
//! so each query's result is given a name (an uninterpreted spec function),
//! and the decoder's own contracts are stated over those names.

use vstd::prelude::*;

verus! {

/// The string field `key` of the JSON object on `line`: its characters if
/// the line parses as an object whose `key` is a string, and nothing
/// otherwise (line not valid UTF-8 or not valid JSON, key absent, or key
/// not a string).
pub uninterp spec fn json_str(line: Seq<u8>, key: Seq<char>) -> Option<Seq<char>>;

/// The optional string field `inner` of the object field `outer` on `line`.
/// The outer `Option` is nothing when the field is present with a type other
/// than string or null; `Some(None)` means absent or null; `Some(Some(s))`
/// means the string `s`.
pub uninterp spec fn json_opt_str(line: Seq<u8>, outer: Seq<char>, inner: Seq<char>) -> Option<
    Option<Seq<char>>,
>;

/// The field `key` of the JSON object on `line` as a `u32`: its value if it
/// is a non-negative integer that fits, and nothing otherwise.
pub uninterp spec fn json_u32(line: Seq<u8>, key: Seq<char>) -> Option<u32>;

/// Whether `line` parses as a JSON object whose field `key` is itself an
/// object.
pub uninterp spec fn json_has_object(line: Seq<u8>, key: Seq<char>) -> bool;

/// Relies on `serde_json::from_str` to parse the line as a JSON value, and
/// on `serde_json::Value::get` and `serde_json::Value::as_str` to read the
/// string field `key`; all are pure functions of their arguments.
#[verifier::external_body]
pub(crate) fn str_field(line: &[u8], key: &str) -> (r: Option<String>)
    ensures
        match r {
            Some(s) => json_str(line@, key@) == Some(s@),
            None => json_str(line@, key@) is None,
        },
{
    let text = std::str::from_utf8(line).ok()?;
    let value: serde_json::Value = serde_json::from_str(text).ok()?;
    value.get(key).and_then(serde_json::Value::as_str).map(str::to_owned)
}

/// Relies on `serde_json::from_str`, `serde_json::Value::get`,
/// `serde_json::Value::as_str` and `serde_json::Value::is_null` to read the
/// optional string field `inner` inside the object field `outer`; all are
/// pure functions of their arguments.
#[verifier::external_body]
pub(crate) fn opt_str_field(line: &[u8], outer: &str, inner: &str) -> (r: Option<Option<String>>)
    ensures
        match r {
            Some(Some(s)) => json_opt_str(line@, outer@, inner@) == Some(Some(s@)),
            Some(None) => json_opt_str(line@, outer@, inner@) == Some(None::<Seq<char>>),
            None => json_opt_str(line@, outer@, inner@) is None,
        },
{
    let text = std::str::from_utf8(line).ok()?;
    let value: serde_json::Value = serde_json::from_str(text).ok()?;
    match value.get(outer).and_then(|d| d.get(inner)) {
        None => Some(None),
        Some(v) if v.is_null() => Some(None),
        Some(v) => v.as_str().map(|s| Some(s.to_owned())),
    }
}

/// Relies on `serde_json::from_str`, `serde_json::Value::get` and
/// `serde_json::Value::as_u64` to read the numeric field `key`, and on
/// `u32::try_from` to narrow it; all are pure functions of their arguments.
#[verifier::external_body]
pub(crate) fn u32_field(line: &[u8], key: &str) -> (r: Option<u32>)
    ensures
        match r {
            Some(n) => json_u32(line@, key@) == Some(n),
            None => json_u32(line@, key@) is None,
        },
{
    let text = std::str::from_utf8(line).ok()?;
    let value: serde_json::Value = serde_json::from_str(text).ok()?;
    let n = value.get(key)?.as_u64()?;
    u32::try_from(n).ok()
}

/// Relies on `serde_json::from_str`, `serde_json::Value::get` and
/// `serde_json::Value::is_object` to test whether the field `key` is an
/// object; all are pure functions of their arguments.
#[verifier::external_body]
pub(crate) fn object_field(line: &[u8], key: &str) -> (r: bool)
    ensures
        r == json_has_object(line@, key@),
{
    let parsed = std::str::from_utf8(line).ok().and_then(
        |text| serde_json::from_str::<serde_json::Value>(text).ok(),
    );
    match parsed {
        Some(value) => value.get(key).is_some_and(serde_json::Value::is_object),
        None => false,
    }
}

} // verus!
