//! Reading a quota payload, a JSON document, into a `RawUsage`. The JSON
//! text is parsed by serde_json; what this module decides is which members
//! are read and how each is interpreted.

use vstd::prelude::*;
use crate::percent::{parse_points, points_of_text};
use crate::quota::{decode_usage, decodes_usage, raw_in_range, RawUsage, RawWindow, UsageData};

verus! {

#[verifier::external_type_specification]
#[verifier::external_body]
pub struct ExJsonValue(serde_json::Value);

/// The document serde_json reads from a text, if it is one.
pub uninterp spec fn json_document(text: Seq<char>) -> Option<serde_json::Value>;

/// The member `key` of a JSON object (nothing for a non-object).
pub uninterp spec fn json_member(v: serde_json::Value, key: Seq<char>) -> Option<serde_json::Value>;

/// A JSON number stored as a non-negative 64-bit integer.
pub uninterp spec fn json_u64(v: serde_json::Value) -> Option<u64>;

/// A JSON boolean.
pub uninterp spec fn json_bool(v: serde_json::Value) -> Option<bool>;

/// The contents of a JSON string.
pub uninterp spec fn json_str(v: serde_json::Value) -> Option<Seq<char>>;

/// The decimal text of a JSON number.
pub uninterp spec fn json_number_text(v: serde_json::Value) -> Option<Seq<char>>;

/// Relies on serde_json::from_str: the document a text holds; an error for
/// text that is not one.
#[verifier::external_body]
fn parse_document(text: &str) -> (r: Option<serde_json::Value>)
    ensures
        r == json_document(text@),
{
    serde_json::from_str::<serde_json::Value>(text).ok()
}

/// Relies on serde_json::Value::get: the member `key` of an object.
#[verifier::external_body]
fn member<'a>(v: &'a serde_json::Value, key: &str) -> (r: Option<&'a serde_json::Value>)
    ensures
        r is None <==> json_member(*v, key@) is None,
        r matches Some(m) ==> json_member(*v, key@) == Some(*m),
{
    v.get(key)
}

/// Relies on serde_json::Value::as_u64: a non-negative integer that fits in
/// 64 bits.
#[verifier::external_body]
fn as_unsigned(v: &serde_json::Value) -> (r: Option<u64>)
    ensures
        r == json_u64(*v),
{
    v.as_u64()
}

/// Relies on serde_json::Value::as_bool: a JSON boolean.
#[verifier::external_body]
fn as_boolean(v: &serde_json::Value) -> (r: Option<bool>)
    ensures
        r == json_bool(*v),
{
    v.as_bool()
}

/// The characters of an optional string.
pub open spec fn opt_text(s: Option<String>) -> Option<Seq<char>> {
    match s {
        Some(t) => Some(t@),
        None => None,
    }
}

/// Relies on serde_json::Value::as_str: a JSON string's contents.
#[verifier::external_body]
fn as_text(v: &serde_json::Value) -> (r: Option<String>)
    ensures
        opt_text(r) == json_str(*v),
{
    v.as_str().map(|s| s.to_string())
}

/// Relies on serde_json::Number's Display: the decimal text of a JSON number.
#[verifier::external_body]
fn number_text(v: &serde_json::Value) -> (r: Option<String>)
    ensures
        opt_text(r) == json_number_text(*v),
{
    v.as_number().map(|n| n.to_string())
}

/// The used share a window object records, in points: its `used_percent`
/// member when that is a number whose text `points_of_text` reads.
pub open spec fn used_of(w: serde_json::Value) -> Option<i64> {
    match json_member(w, "used_percent"@) {
        Some(x) => match json_number_text(x) {
            Some(t) => match points_of_text(t) {
                Some(p) => Some(p as i64),
                None => None,
            },
            None => None,
        },
        None => None,
    }
}

/// The unsigned integer member `key` of an object.
pub open spec fn u64_member(v: serde_json::Value, key: Seq<char>) -> Option<u64> {
    match json_member(v, key) {
        Some(x) => json_u64(x),
        None => None,
    }
}

/// Whether `r` is what a window object reads as: `used_percent`,
/// `limit_window_seconds` and `reset_after_seconds`.
pub open spec fn reads_window(w: serde_json::Value, r: RawWindow) -> bool {
    &&& r.used_percent == used_of(w)
    &&& r.limit_window_seconds == u64_member(w, "limit_window_seconds"@)
    &&& r.reset_after_seconds == u64_member(w, "reset_after_seconds"@)
}

/// Whether an optional raw window is what the member `key` of `v` reads
/// as: absent when the member is.
pub open spec fn reads_window_member(v: serde_json::Value, key: Seq<char>, r: Option<RawWindow>) -> bool {
    match json_member(v, key) {
        Some(w) => r matches Some(rw) && reads_window(w, rw),
        None => r is None,
    }
}

/// Whether `r` is what a payload reads as: `plan_type`;
/// `rate_limit.primary_window`, `rate_limit.secondary_window` and
/// `rate_limit.limit_reached`; `code_review_rate_limit.primary_window`.
pub open spec fn reads_usage(data: serde_json::Value, r: RawUsage) -> bool {
    &&& opt_text(r.plan_type) == match json_member(data, "plan_type"@) {
        Some(x) => json_str(x),
        None => None,
    }
    &&& match json_member(data, "rate_limit"@) {
        Some(rl) => {
            &&& reads_window_member(rl, "primary_window"@, r.primary_window)
            &&& reads_window_member(rl, "secondary_window"@, r.secondary_window)
            &&& r.limit_reached == match json_member(rl, "limit_reached"@) {
                Some(x) => json_bool(x),
                None => None,
            }
        },
        None => r.primary_window is None && r.secondary_window is None && r.limit_reached is None,
    }
    &&& match json_member(data, "code_review_rate_limit"@) {
        Some(cr) => reads_window_member(cr, "primary_window"@, r.code_review_window),
        None => r.code_review_window is None,
    }
}

/// The used share of a payload window; see `used_of`.
fn read_used(w: &serde_json::Value) -> (r: Option<i64>)
    ensures
        r == used_of(*w),
        r matches Some(u) ==> -1000000000 <= u <= 1000000000,
{
    match member(w, "used_percent") {
        Some(v) => match number_text(v) {
            Some(t) => parse_points(t.as_str()),
            None => None,
        },
        None => None,
    }
}

fn read_u64_member(v: &serde_json::Value, key: &str) -> (r: Option<u64>)
    ensures
        r == u64_member(*v, key@),
{
    match member(v, key) {
        Some(x) => as_unsigned(x),
        None => None,
    }
}

/// Reads one window object of a payload; see `reads_window`.
pub fn read_window(w: &serde_json::Value) -> (r: RawWindow)
    ensures
        reads_window(*w, r),
        r.used_percent matches Some(u) ==> -1000000000 <= u <= 1000000000,
{
    RawWindow {
        used_percent: read_used(w),
        limit_window_seconds: read_u64_member(w, "limit_window_seconds"),
        reset_after_seconds: read_u64_member(w, "reset_after_seconds"),
    }
}

fn read_window_member(v: &serde_json::Value, key: &str) -> (r: Option<RawWindow>)
    ensures
        reads_window_member(*v, key@, r),
        r matches Some(w) ==> (w.used_percent matches Some(u) ==> -1000000000 <= u <= 1000000000),
{
    match member(v, key) {
        Some(w) => Some(read_window(w)),
        None => None,
    }
}

/// Reads the members of a payload that a snapshot is made from; see
/// `reads_usage`.
pub fn read_usage(data: &serde_json::Value) -> (r: RawUsage)
    ensures
        reads_usage(*data, r),
        raw_in_range(r),
{
    let plan_type = match member(data, "plan_type") {
        Some(v) => as_text(v),
        None => None,
    };
    let (primary_window, secondary_window, limit_reached) = match member(data, "rate_limit") {
        Some(rl) => (
            read_window_member(rl, "primary_window"),
            read_window_member(rl, "secondary_window"),
            match member(rl, "limit_reached") {
                Some(v) => as_boolean(v),
                None => None,
            },
        ),
        None => (None, None, None),
    };
    let code_review_window = match member(data, "code_review_rate_limit") {
        Some(cr) => read_window_member(cr, "primary_window"),
        None => None,
    };
    RawUsage { plan_type, primary_window, secondary_window, limit_reached, code_review_window }
}

/// Turns a parsed payload into a snapshot for `account_name`: the members
/// `reads_usage` names are read, and whatever is missing takes the defaults
/// of `decode_usage`.
pub fn parse_usage_response(data: &serde_json::Value, account_name: &str) -> (r: UsageData)
    ensures
        exists|raw: RawUsage| reads_usage(*data, raw) && decodes_usage(raw, account_name@, r),
{
    let raw = read_usage(data);
    let r = decode_usage(&raw, account_name);
    assert(reads_usage(*data, raw) && decodes_usage(raw, account_name@, r));
    r
}

/// Parses a payload's text and turns it into a snapshot for `account_name`;
/// `None` exactly when the text is not a JSON document.
pub fn parse_usage_body(body: &str, account_name: &str) -> (r: Option<UsageData>)
    ensures
        r is Some <==> json_document(body@) is Some,
        r matches Some(u) ==> exists|raw: RawUsage| reads_usage(json_document(body@).unwrap(), raw)
            && decodes_usage(raw, account_name@, u),
{
    match parse_document(body) {
        Some(doc) => Some(parse_usage_response(&doc, account_name)),
        None => None,
    }
}

} // verus!
