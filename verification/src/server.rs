//! Answers of the agent's HTTP API.
use vstd::prelude::*;
use crate::json::JsonValue;

verus! {

/// The health-check answer of `GET /`.
pub fn handle_route() -> (r: &'static str)
    ensures
        r@ == "load it up [^^]"@,
{
    let r = "load it up [^^]";
    r
}

/// `{"error": "Blob not found"}`
pub open spec fn is_blob_not_found(v: JsonValue) -> bool {
    match v {
        JsonValue::Object(fields) => {
            &&& fields@.len() == 1
            &&& fields@[0].0@ == "error"@
            &&& fields@[0].1 matches JsonValue::String(m) && m@ == "Blob not found"@
        },
        _ => false,
    }
}

/// The answer of `GET /v1/blob/<versioned_hash>`: the metadata found, or
/// `{"error": "Blob not found"}` when the lookup failed.
pub fn blob_lookup_response(found: Option<JsonValue>) -> (r: JsonValue)
    ensures
        found is Some ==> r == found.unwrap(),
        found is None ==> is_blob_not_found(r),
{
    match found {
        Some(v) => v,
        None => {
            let mut fields: Vec<(String, JsonValue)> = Vec::new();
            fields.push(
                (String::from_str("error"), JsonValue::String(String::from_str("Blob not found"))),
            );
            JsonValue::Object(fields)
        },
    }
}

/// The answer of `GET /v1/stats`: the statistics found, or JSON `null`
/// when they could not be read.
pub fn stats_response(found: Option<JsonValue>) -> (r: JsonValue)
    ensures
        found is Some ==> r == found.unwrap(),
        found is None ==> r is Null,
{
    match found {
        Some(v) => v,
        None => JsonValue::Null,
    }
}

} // verus!
