//! Boundary to serde_json and to std's text decoding.
//!
//! Each event line's payload is probed by serde_json; what a probe returns is
//! a pure function of the payload text, so each probe's result is given a
//! name (an uninterpreted spec function) and the wrapper's contract states
//! that the call returns exactly that name's value.

use vstd::prelude::*;
use crate::types::{opt_str_view, Usage};

verus! {

/// The top-level string field `name` of the payload `s`, if `s` is valid
/// JSON, an object, and carries `name` as a string; `None` otherwise.
pub uninterp spec fn json_top_str(s: Seq<char>, name: Seq<char>) -> Option<Seq<char>>;

/// The top-level `created` field of `s`, if it is an unsigned integer.
pub uninterp spec fn json_created(s: Seq<char>) -> Option<u64>;

/// The `usage` object of `s`, if it carries the three token counts as
/// unsigned integers.
pub uninterp spec fn json_usage(s: Seq<char>) -> Option<Usage>;

/// The string field `name` of `choices[0].delta` of `s`, if present.
pub uninterp spec fn json_delta_str(s: Seq<char>, name: Seq<char>) -> Option<Seq<char>>;

/// The string field `choices[0].finish_reason` of `s`, if present.
pub uninterp spec fn json_finish(s: Seq<char>) -> Option<Seq<char>>;

/// What std's lossy UTF-8 decoding makes of the bytes `b`: a function of the
/// bytes alone, with malformed sequences replaced, never an error.
pub uninterp spec fn lossy_of(b: Seq<u8>) -> Seq<char>;

/// Relies on serde_json::from_str, Value::get and Value::as_str: the result
/// is the top-level string field `name` of the JSON document `s`, `None`
/// when `s` does not parse or the field is absent or not a string.
#[verifier::external_body]
pub(crate) fn parse_top_str(s: &str, name: &str) -> (r: Option<String>)
    ensures
        opt_str_view(r) == json_top_str(s@, name@),
{
    let v: serde_json::Value = match serde_json::from_str(s) { Ok(v) => v, Err(_) => { return None; } };
    let f = match v.get(name) { Some(f) => f, None => { return None; } };
    match f.as_str() { Some(x) => Some(x.to_string()), None => None }
}

/// Relies on serde_json::from_str, Value::get and Value::as_u64: the result
/// is the top-level `created` field when it is an unsigned integer.
#[verifier::external_body]
pub(crate) fn parse_created(s: &str) -> (r: Option<u64>)
    ensures
        r == json_created(s@),
{
    let v: serde_json::Value = match serde_json::from_str(s) { Ok(v) => v, Err(_) => { return None; } };
    match v.get("created") { Some(x) => x.as_u64(), None => None }
}

/// Relies on serde_json::from_str, Value::get and Value::as_u64: the result
/// holds the `usage` object's three token counts when all three are present
/// as unsigned integers.
#[verifier::external_body]
pub(crate) fn parse_usage(s: &str) -> (r: Option<Usage>)
    ensures
        r == json_usage(s@),
{
    let v: serde_json::Value = match serde_json::from_str(s) { Ok(v) => v, Err(_) => { return None; } };
    let u = match v.get("usage") { Some(u) => u, None => { return None; } };
    let p = match u.get("prompt_tokens") { Some(x) => x.as_u64(), None => None };
    let c = match u.get("completion_tokens") { Some(x) => x.as_u64(), None => None };
    let t = match u.get("total_tokens") { Some(x) => x.as_u64(), None => None };
    match (p, c, t) {
        (Some(p), Some(c), Some(t)) => {
            Some(Usage { prompt_tokens: p, completion_tokens: c, total_tokens: t })
        },
        _ => None,
    }
}

/// Relies on serde_json::from_str, Value::get and Value::as_str: the result
/// is the string field `name` of the first choice's `delta` object.
#[verifier::external_body]
pub(crate) fn parse_delta_str(s: &str, name: &str) -> (r: Option<String>)
    ensures
        opt_str_view(r) == json_delta_str(s@, name@),
{
    let v: serde_json::Value = match serde_json::from_str(s) { Ok(v) => v, Err(_) => { return None; } };
    let c0 = match v.get("choices") { Some(c) => c.get(0), None => None };
    let d = match c0 { Some(c) => c.get("delta"), None => None };
    let f = match d { Some(d) => d.get(name), None => None };
    match f {
        Some(f) => match f.as_str() { Some(x) => Some(x.to_string()), None => None },
        None => None,
    }
}

/// Relies on serde_json::from_str, Value::get and Value::as_str: the result
/// is the string field `finish_reason` of the first choice.
#[verifier::external_body]
pub(crate) fn parse_finish(s: &str) -> (r: Option<String>)
    ensures
        opt_str_view(r) == json_finish(s@),
{
    let v: serde_json::Value = match serde_json::from_str(s) { Ok(v) => v, Err(_) => { return None; } };
    let c0 = match v.get("choices") { Some(c) => c.get(0), None => None };
    let f = match c0 { Some(c) => c.get("finish_reason"), None => None };
    match f {
        Some(f) => match f.as_str() { Some(x) => Some(x.to_string()), None => None },
        None => None,
    }
}

/// Relies on String::from_utf8_lossy: decodes UTF-8, replacing malformed
/// sequences with the replacement character, never failing.
#[verifier::external_body]
pub(crate) fn lossy_decode(b: &[u8]) -> (r: String)
    ensures
        r@ == lossy_of(b@),
{
    String::from_utf8_lossy(b).into_owned()
}

/// Relies on String's FromIterator<char>: collecting chars yields the string
/// of exactly those chars in order.
#[verifier::external_body]
pub(crate) fn chars_to_string(cs: &Vec<char>) -> (r: String)
    ensures
        r@ == cs@,
{
    cs.iter().collect()
}

} // verus!
