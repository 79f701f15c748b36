//! JSON, msgpack and UTF-8, as outside code reads and writes them.

use vstd::prelude::*;
use vstd::string::*;
use vstd::utf8::*;

use serde_json::Value;

use crate::value::{Double, Json, JsonView};

verus! {

/// A JSON value of `serde_json`.
#[verifier::external_type_specification]
#[verifier::external_body]
pub struct ExValue(serde_json::Value);

/// Turns a `serde_json::Value` into a [`Json`], one for one.
///
/// Handles `serde_json::Value` and its `Number`; nothing is claimed of the result.
#[verifier::external_body]
fn json_of_value(v: Value) -> Json {
    match v {
        Value::Null => Json::Null,
        Value::Bool(b) => Json::Bool(b),
        Value::Number(n) => match (n.as_u64(), n.as_i64()) {
            (Some(u), _) => Json::UInt(u),
            (_, Some(i)) => Json::Int(i),
            _ => Json::Real(Double { bits: n.as_f64().map_or(0, |x| x.to_bits()) }),
        },
        Value::String(s) => Json::Str(s),
        Value::Array(a) => Json::Array(a.into_iter().map(json_of_value).collect()),
        Value::Object(o) => Json::Object(
            o.into_iter().map(|(k, x)| (k, json_of_value(x))).collect(),
        ),
    }
}

/// Turns a [`Json`] into a `serde_json::Value`, one for one. A double is handed over in its
/// msgpack form, which `rmp_serde` reads.
///
/// Handles `serde_json::Value`; nothing is claimed of the result.
#[verifier::external_body]
fn value_of_json(j: &Json) -> Value {
    match j {
        Json::Null => Value::Null,
        Json::Bool(b) => Value::Bool(*b),
        Json::UInt(n) => Value::from(*n),
        Json::Int(n) => Value::from(*n),
        Json::Real(x) => rmp_serde::from_slice(&[&[0xcb], &x.bits.to_be_bytes()[..]].concat())
            .unwrap_or(Value::Null),
        Json::Str(s) => Value::String(s.clone()),
        Json::Array(a) => a.iter().map(value_of_json).collect(),
        Json::Object(m) => m.iter().map(|(k, x)| (k.clone(), value_of_json(x))).collect(),
    }
}

/// What `serde_json` reads from a text: the value, or the text of its error.
pub uninterp spec fn json_of_text(text: Seq<char>) -> Result<JsonView, Seq<char>>;

/// Reads a JSON value from a text.
///
/// Calls `serde_json::from_str`. Its result is named, not described.
#[verifier::external_body]
pub(crate) fn parse_json(text: &str) -> (r: Result<Json, String>)
    ensures
        match r {
            Ok(j) => json_of_text(text@) == Ok::<JsonView, Seq<char>>(j.deep_view()),
            Err(e) => json_of_text(text@) == Err::<JsonView, Seq<char>>(e@),
        },
{
    serde_json::from_str(text).map(json_of_value).map_err(|e: serde_json::Error| e.to_string())
}

/// What `serde_json` reads from bytes: the value, or the text of its error.
pub uninterp spec fn json_of_bytes(bytes: Seq<u8>) -> Result<JsonView, Seq<char>>;

/// Reads a JSON value from bytes.
///
/// Calls `serde_json::from_slice`. Its result is named, not described.
#[verifier::external_body]
pub(crate) fn decode_json(bytes: &[u8]) -> (r: Result<Json, String>)
    ensures
        match r {
            Ok(j) => json_of_bytes(bytes@) == Ok::<JsonView, Seq<char>>(j.deep_view()),
            Err(e) => json_of_bytes(bytes@) == Err::<JsonView, Seq<char>>(e@),
        },
{
    serde_json::from_slice(bytes).map(json_of_value).map_err(|e: serde_json::Error| e.to_string())
}

/// What `serde_json` writes for a value: the bytes, or the text of its error.
pub uninterp spec fn json_to_bytes(j: JsonView) -> Result<Seq<u8>, Seq<char>>;

/// Writes a JSON value as bytes.
///
/// Calls `serde_json::to_vec`. Its result is named, not described.
#[verifier::external_body]
pub(crate) fn encode_json(j: &Json) -> (r: Result<Vec<u8>, String>)
    ensures
        match r {
            Ok(b) => json_to_bytes(j.deep_view()) == Ok::<Seq<u8>, Seq<char>>(b@),
            Err(e) => json_to_bytes(j.deep_view()) == Err::<Seq<u8>, Seq<char>>(e@),
        },
{
    serde_json::to_vec(&value_of_json(j)).map_err(|e| e.to_string())
}

/// How `serde_json` lays a value out over several lines, for people to read.
pub uninterp spec fn json_pretty(j: JsonView) -> Result<Seq<char>, Seq<char>>;

/// Lays a JSON value out for people to read.
///
/// Calls `serde_json::to_string_pretty`. Its result is named, not described.
#[verifier::external_body]
pub(crate) fn pretty_json(j: &Json) -> (r: Result<String, String>)
    ensures
        match r {
            Ok(s) => json_pretty(j.deep_view()) == Ok::<Seq<char>, Seq<char>>(s@),
            Err(e) => json_pretty(j.deep_view()) == Err::<Seq<char>, Seq<char>>(e@),
        },
{
    serde_json::to_string_pretty(&value_of_json(j)).map_err(|e| e.to_string())
}

/// What `rmp_serde` reads from msgpack bytes: the value, or the text of its error.
pub uninterp spec fn msgpack_of_bytes(bytes: Seq<u8>) -> Result<JsonView, Seq<char>>;

/// Reads a value from msgpack bytes.
///
/// Calls `rmp_serde::from_slice` for a `serde_json::Value`. Its result is named, not
/// described.
#[verifier::external_body]
pub(crate) fn decode_msgpack(bytes: &[u8]) -> (r: Result<Json, String>)
    ensures
        match r {
            Ok(j) => msgpack_of_bytes(bytes@) == Ok::<JsonView, Seq<char>>(j.deep_view()),
            Err(e) => msgpack_of_bytes(bytes@) == Err::<JsonView, Seq<char>>(e@),
        },
{
    rmp_serde::from_slice(bytes).map(json_of_value).map_err(
        |e: rmp_serde::decode::Error| e.to_string(),
    )
}

/// The text of the error for bytes that are not UTF-8.
pub uninterp spec fn utf8_error(bytes: Seq<u8>) -> Seq<char>;

/// Reads bytes as text.
///
/// Calls `std::str::from_utf8`: it succeeds on valid UTF-8 and gives the characters that the
/// bytes encode. The text of its error is named, not described.
#[verifier::external_body]
pub(crate) fn utf8_text(bytes: &[u8]) -> (r: Result<String, String>)
    ensures
        match r {
            Ok(s) => valid_utf8(bytes@) && s@ == decode_utf8(bytes@),
            Err(e) => !valid_utf8(bytes@) && e@ == utf8_error(bytes@),
        },
{
    std::str::from_utf8(bytes).map(|s| s.to_string()).map_err(|e| e.to_string())
}

/// The text of bytes that are not UTF-8, with replacement characters.
pub uninterp spec fn utf8_lossy(bytes: Seq<u8>) -> Seq<char>;

/// The text of bytes, with replacement characters where they are not UTF-8.
pub open spec fn text_lossy(bytes: Seq<u8>) -> Seq<char> {
    if valid_utf8(bytes) {
        decode_utf8(bytes)
    } else {
        utf8_lossy(bytes)
    }
}

/// Reads bytes as text, with replacement characters where they are not UTF-8.
///
/// Calls `String::from_utf8_lossy`: on valid UTF-8 it gives the characters that the bytes
/// encode. Its result on other bytes is named, not described.
#[verifier::external_body]
pub(crate) fn lossy_text(bytes: &[u8]) -> (s: String)
    ensures
        s@ == if valid_utf8(bytes@) {
            decode_utf8(bytes@)
        } else {
            utf8_lossy(bytes@)
        },
{
    String::from_utf8_lossy(bytes).into_owned()
}

/// What `url` gives for a reference relative to a base: the address, or the text of its error.
pub uninterp spec fn url_join(base: Seq<char>, relative: Seq<char>) -> Result<Seq<char>, Seq<char>>;

/// Resolves a relative reference against a base address.
///
/// Calls `url::Url::join` on the base that `url::Url::parse` reads. The result is named, not
/// described.
#[verifier::external_body]
pub(crate) fn join_url(base: &str, relative: &str) -> (r: Result<String, String>)
    ensures
        match r {
            Ok(u) => url_join(base@, relative@) == Ok::<Seq<char>, Seq<char>>(u@),
            Err(e) => url_join(base@, relative@) == Err::<Seq<char>, Seq<char>>(e@),
        },
{
    url::Url::parse(base).and_then(|b| b.join(relative)).map(|u| u.to_string()).map_err(
        |e| e.to_string(),
    )
}

} // verus!
