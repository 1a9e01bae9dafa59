//! The one error type that every failing operation of the client reports.

use vstd::prelude::*;

use crate::request::ResponseType;

verus! {

#[verifier::external_type_specification]
#[verifier::external_body]
pub struct ExHttpError(reqwest::Error);

#[verifier::external_type_specification]
#[verifier::external_body]
pub struct ExJsonError(serde_json::Error);

/// What went wrong with a request or with reading its response.
#[derive(Debug)]
pub enum EchoError {
    /// The transport failed to deliver the request or its response.
    HttpError(reqwest::Error),
    /// A response body could not be decoded as JSON; it carries the declared
    /// response type and the parser's diagnostic.
    JsonError(ResponseType, serde_json::Error),
    /// A header line without a `:` separator; it carries the line.
    MalformedHeader(String),
    /// A stored header whose name or value the transport cannot encode; it
    /// carries the header's name.
    InvalidHeaderValue(String),
    /// The transport's header map refused one more entry.
    TooManyHeaders,
    /// The declared response type has no decoder.
    UnsupportedResponseType(ResponseType),
    /// A URL could not be constructed.
    UrlError,
}

} // verus!
