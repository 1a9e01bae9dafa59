//! Decoding response bodies according to the declared response type.

use vstd::prelude::*;

use serde_json::Value;

use crate::error::EchoError;
use crate::json::{empty_object_text, json_accepts, json_null, json_of, null_text, parse_json};
use crate::request::ResponseType;

verus! {

/// How the transport is to read a response body.
#[derive(Debug, Clone, Copy, PartialEq, Eq, Structural)]
pub enum BodyFormat {
    /// Read the body and decode it as JSON.
    Json,
    /// Read the body as text, then decode that text as JSON.
    Text,
    /// Read the raw bytes, then decode them as JSON.
    Bytes,
}

/// The response types that have no decoder.
pub open spec fn unsupported(rt: ResponseType) -> bool {
    rt == ResponseType::Document || rt == ResponseType::Stream
}

/// The body format a supported response type asks for.
pub open spec fn format_of(rt: ResponseType) -> BodyFormat {
    match rt {
        ResponseType::Text => BodyFormat::Text,
        ResponseType::ArrayBuffer => BodyFormat::Bytes,
        _ => BodyFormat::Json,
    }
}

/// The body format that `rt` asks for; a type with no decoder is refused,
/// and the error names it.
pub fn body_format(rt: ResponseType) -> (r: Result<BodyFormat, EchoError>)
    ensures
        !unsupported(rt) ==> r == Ok::<BodyFormat, EchoError>(format_of(rt)),
        unsupported(rt) ==> (r matches Err(EchoError::UnsupportedResponseType(t)) && t == rt),
{
    match rt {
        ResponseType::Json => Ok(BodyFormat::Json),
        ResponseType::Text => Ok(BodyFormat::Text),
        ResponseType::ArrayBuffer => Ok(BodyFormat::Bytes),
        ResponseType::Document => Err(EchoError::UnsupportedResponseType(rt)),
        ResponseType::Stream => Err(EchoError::UnsupportedResponseType(rt)),
    }
}

/// Decodes a body, read as `rt` asks, into a JSON value; a body that does
/// not parse is an error carrying the parser's diagnostic.
pub fn decode_body(rt: ResponseType, body: &[u8]) -> (r: Result<Value, EchoError>)
    ensures
        unsupported(rt) ==> (r matches Err(EchoError::UnsupportedResponseType(t)) && t == rt),
        !unsupported(rt) ==> (r is Ok <==> json_accepts(body@)),
        !unsupported(rt) && json_accepts(body@) ==> r == Ok::<Value, EchoError>(json_of(body@)),
        !unsupported(rt) && !json_accepts(body@) ==> (r matches Err(EchoError::JsonError(t, _)) && t == rt),
{
    match body_format(rt) {
        Err(e) => Err(e),
        Ok(_) => match parse_json(body) {
            Ok(v) => Ok(v),
            Err(e) => Err(EchoError::JsonError(rt, e)),
        },
    }
}

/// The value of a body whose shape is not known: what it parses to, or
/// JSON `null` where it does not parse.
pub open spec fn lenient_value(body: Seq<u8>) -> Value {
    if json_accepts(body) {
        json_of(body)
    } else {
        json_of(null_text())
    }
}

/// Decodes a body whose shape is not known; never fails: an empty or
/// unparsable body gives JSON `null`.
pub fn decode_body_lenient(body: &[u8]) -> (r: Value)
    ensures
        r == lenient_value(body@),
        body@.len() == 0 ==> r == json_of(null_text()),
        body@ == empty_object_text() ==> r == json_of(empty_object_text()),
{
    match parse_json(body) {
        Ok(v) => v,
        Err(_) => json_null(),
    }
}

/// The untyped path never fails on a body: one that does not parse, the
/// empty body among them, decodes to JSON `null`.
pub proof fn lemma_unparsable_body_is_null(body: Seq<u8>)
    requires
        !json_accepts(body),
    ensures
        lenient_value(body) == json_of(null_text()),
{
}

} // verus!
