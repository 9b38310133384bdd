//! Reading the metadata probe's output. The probe tool prints a JSON object
//! whose `streams` array's first element carries `width`, `height`,
//! `duration` and `bit_rate`; parsing the JSON text is done by an external
//! parser behind trusted declarations, and everything decided from the
//! extracted plain values is verified elsewhere.

use vstd::prelude::*;

use crate::metadata::MediaMetadata;

verus! {

/// serde_json's dynamic JSON document type, opaque to verification.
#[verifier::external_type_specification]
#[verifier::external_body]
pub struct ExValue(serde_json::Value);

/// Relies on serde_json::from_str: parses a JSON document; `None` when the
/// text is not valid JSON.
#[verifier::external_body]
fn json_parse(s: &str) -> Option<serde_json::Value> {
    serde_json::from_str(s).ok()
}

/// Relies on serde_json::Value::get with a string index: the value under a
/// key of a JSON object; `None` for other value kinds or a missing key.
#[verifier::external_body]
fn json_get<'a>(v: &'a serde_json::Value, key: &str) -> Option<&'a serde_json::Value> {
    v.get(key)
}

/// Relies on serde_json::Value::get with a usize index: the element of a
/// JSON array; `None` for other value kinds or an index out of bounds.
#[verifier::external_body]
fn json_get_index<'a>(v: &'a serde_json::Value, i: usize) -> Option<&'a serde_json::Value> {
    v.get(i)
}

/// Relies on serde_json::Value::as_u64: the value of a JSON number
/// representable as `u64`; `None` otherwise.
#[verifier::external_body]
fn json_as_u64(v: &serde_json::Value) -> Option<u64> {
    v.as_u64()
}

/// Relies on serde_json::Value::as_str: the contents of a JSON string;
/// `None` for other value kinds.
#[verifier::external_body]
fn json_as_string(v: &serde_json::Value) -> Option<String> {
    v.as_str().map(str::to_owned)
}

/// Extracts the probed record from the probe tool's output: `None` — the
/// probe error — when the text is not JSON or the first stream lacks one of
/// the four fields. What a given text parses to is the external parser's
/// decision, so nothing is promised of the extracted values themselves; the
/// pipeline's verified decisions take the returned record as an argument
/// and hold for every value of it.
pub fn parse_probe_output(out: &str) -> Option<MediaMetadata> {
    let doc = match json_parse(out) {
        Some(v) => v,
        None => {
            return None;
        },
    };
    let first = match json_get(&doc, "streams") {
        Some(streams) => match json_get_index(streams, 0) {
            Some(v) => v,
            None => {
                return None;
            },
        },
        None => {
            return None;
        },
    };
    let width = match json_get(first, "width") {
        Some(v) => match json_as_u64(v) {
            Some(w) => w,
            None => {
                return None;
            },
        },
        None => {
            return None;
        },
    };
    let height = match json_get(first, "height") {
        Some(v) => match json_as_u64(v) {
            Some(h) => h,
            None => {
                return None;
            },
        },
        None => {
            return None;
        },
    };
    let duration = match json_get(first, "duration") {
        Some(v) => match json_as_string(v) {
            Some(d) => d,
            None => {
                return None;
            },
        },
        None => {
            return None;
        },
    };
    let bit_rate = match json_get(first, "bit_rate") {
        Some(v) => match json_as_string(v) {
            Some(b) => b,
            None => {
                return None;
            },
        },
        None => {
            return None;
        },
    };
    Some(MediaMetadata { width, height, duration, bit_rate })
}

} // verus!
