//! JSON bodies: which bytes parse, and the value they parse to.

use vstd::prelude::*;

use serde_json::Value;

verus! {

#[verifier::external_type_specification]
#[verifier::external_body]
pub struct ExJsonValue(serde_json::Value);

/// What `serde_json` parses from `bytes`: the one JSON value they hold, or
/// none where they do not hold one.
pub uninterp spec fn json_parsed(bytes: Seq<u8>) -> Option<Value>;

/// Whether `bytes` parse as one JSON value.
pub open spec fn json_accepts(bytes: Seq<u8>) -> bool {
    json_parsed(bytes) is Some
}

/// The value that `bytes` parse to.
pub open spec fn json_of(bytes: Seq<u8>) -> Value {
    json_parsed(bytes)->0
}

/// The JSON text `null`.
pub open spec fn null_text() -> Seq<u8> {
    seq![110u8, 117u8, 108u8, 108u8]
}

/// The JSON text `{}`, an object without members.
pub open spec fn empty_object_text() -> Seq<u8> {
    seq![123u8, 125u8]
}

/// Relies on `serde_json::from_slice::<Value>`: whether it succeeds and what
/// it returns depend on the bytes alone; empty input, the text `null` and the
/// text `{}` are settled by its documentation and grammar.
#[verifier::external_body]
fn value_from_slice(bytes: &[u8]) -> (r: Result<Value, serde_json::Error>)
    ensures
        r is Ok <==> json_parsed(bytes@) is Some,
        r matches Ok(v) ==> json_parsed(bytes@) == Some(v),
        bytes@.len() == 0 ==> r is Err,
        bytes@ == null_text() ==> r is Ok,
        bytes@ == empty_object_text() ==> r is Ok,
{
    serde_json::from_slice::<Value>(bytes)
}

/// Parses `bytes` as a JSON value.
pub fn parse_json(bytes: &[u8]) -> (r: Result<Value, serde_json::Error>)
    ensures
        r is Ok <==> json_accepts(bytes@),
        r matches Ok(v) ==> v == json_of(bytes@),
        bytes@.len() == 0 ==> r is Err,
        bytes@ == empty_object_text() ==> r is Ok,
{
    value_from_slice(bytes)
}

/// The JSON value `null`.
pub fn json_null() -> (r: Value)
    ensures
        r == json_of(null_text()),
{
    let text: [u8; 4] = [110u8, 117u8, 108u8, 108u8];
    let bytes = text.as_slice();
    assert(bytes@ =~= null_text());
    value_from_slice(bytes).unwrap()
}

} // verus!
