//! Decoded responses, with the status, headers, configuration and URL of the
//! request that produced them.

use vstd::prelude::*;

use reqwest::header::HeaderMap;
use serde_json::Value;

use crate::decode::{decode_body, decode_body_lenient, lenient_value, unsupported};
use crate::error::EchoError;
use crate::json::{empty_object_text, json_accepts, json_of, null_text};
use crate::request::{base_of, RequestConfig};
use crate::url::resolved;

verus! {

/// A response whose body was decoded into `T`.
#[derive(Debug)]
pub struct Response<T> {
    /// The decoded body.
    pub data: T,
    /// The numeric status code.
    pub status: u16,
    /// The canonical reason phrase of the status, or empty.
    pub status_text: String,
    /// The response headers.
    pub headers: HeaderMap,
    /// The configuration the request was made with.
    pub config: RequestConfig,
    /// The full URL of the request.
    pub request: String,
}

/// A response whose body is a JSON value of unknown shape.
#[derive(Debug)]
pub struct ResponseUnknown {
    pub inner: Response<Value>,
}

impl std::ops::Deref for ResponseUnknown {
    type Target = Response<Value>;

    fn deref(&self) -> (r: &Response<Value>)
        ensures
            r == &self.inner,
    {
        &self.inner
    }
}

/// The status text for a reason phrase: the phrase, or empty without one.
pub open spec fn status_text_of(reason: Option<Seq<char>>) -> Seq<char> {
    match reason {
        Some(t) => t,
        None => Seq::empty(),
    }
}

/// A reason phrase as characters.
pub open spec fn reason_of(reason: Option<&str>) -> Option<Seq<char>> {
    match reason {
        Some(t) => Some(t@),
        None => None,
    }
}

impl<T> Response<T> {
    /// Packages a decoded body with what the transport reported and with the
    /// configuration and path of the request.
    pub fn new(
        data: T,
        status: u16,
        reason: Option<&str>,
        headers: HeaderMap,
        config: RequestConfig,
        url: &str,
    ) -> (r: Response<T>)
        ensures
            r.data == data,
            r.status == status,
            r.status_text@ == status_text_of(reason_of(reason)),
            r.headers == headers,
            r.config == config,
            r.request@ == resolved(base_of(config.base_url), url@),
    {
        let request = config.get_full_url(url);
        let status_text = match reason {
            Some(t) => String::from_str(t),
            None => String::new(),
        };
        Response { data, status, status_text, headers, config, request }
    }
}

/// Decodes a response as the configuration's response type asks. The
/// status is taken before the body is read; a body that cannot be decoded
/// makes the whole call fail.
pub fn parse_response(
    body: &[u8],
    status: u16,
    reason: Option<&str>,
    headers: HeaderMap,
    config: RequestConfig,
    url: &str,
) -> (r: Result<Response<Value>, EchoError>)
    ensures
        unsupported(config.response_type) ==> (r matches Err(
            EchoError::UnsupportedResponseType(t),
        ) && t == config.response_type),
        !unsupported(config.response_type) ==> (r is Ok <==> json_accepts(body@)),
        !unsupported(config.response_type) && !json_accepts(body@) ==> r matches Err(
            EchoError::JsonError(_, _),
        ),
        r matches Ok(resp) ==> {
            &&& resp.data == json_of(body@)
            &&& resp.status == status
            &&& resp.status_text@ == status_text_of(reason_of(reason))
            &&& resp.headers == headers
            &&& resp.config == config
            &&& resp.request@ == resolved(base_of(config.base_url), url@)
        },
{
    match decode_body(config.response_type, body) {
        Ok(data) => Ok(Response::new(data, status, reason, headers, config, url)),
        Err(e) => Err(e),
    }
}

/// Decodes a response whose body shape is not known. It never fails: an
/// empty or unparsable body gives JSON `null`.
pub fn parse_response_unknown(
    body: &[u8],
    status: u16,
    reason: Option<&str>,
    headers: HeaderMap,
    config: RequestConfig,
    url: &str,
) -> (r: ResponseUnknown)
    ensures
        r.inner.data == lenient_value(body@),
        body@.len() == 0 ==> r.inner.data == json_of(null_text()),
        body@ == empty_object_text() ==> r.inner.data == json_of(empty_object_text()),
        r.inner.status == status,
        r.inner.status_text@ == status_text_of(reason_of(reason)),
        r.inner.headers == headers,
        r.inner.config == config,
        r.inner.request@ == resolved(base_of(config.base_url), url@),
{
    let data = decode_body_lenient(body);
    ResponseUnknown { inner: Response::new(data, status, reason, headers, config, url) }
}

/// A decoded response of either kind.
#[derive(Debug)]
pub enum ParsedResponse<T> {
    Response(Response<T>),
    ResponseUnknown(ResponseUnknown),
}

/// Decodes a response: leniently into an untyped response where
/// `is_unknown_response` holds, otherwise strictly as `parse_response` does.
pub fn parse(
    body: &[u8],
    status: u16,
    reason: Option<&str>,
    headers: HeaderMap,
    config: RequestConfig,
    url: &str,
    is_unknown_response: bool,
) -> (r: Result<ParsedResponse<Value>, EchoError>)
    ensures
        is_unknown_response ==> (r matches Ok(ParsedResponse::ResponseUnknown(u)) && {
            &&& u.inner.data == lenient_value(body@)
            &&& u.inner.status == status
            &&& u.inner.status_text@ == status_text_of(reason_of(reason))
            &&& u.inner.headers == headers
            &&& u.inner.config == config
            &&& u.inner.request@ == resolved(base_of(config.base_url), url@)
        }),
        !is_unknown_response && unsupported(config.response_type) ==> (r matches Err(
            EchoError::UnsupportedResponseType(t),
        ) && t == config.response_type),
        !is_unknown_response && !unsupported(config.response_type) ==> (r is Ok <==> json_accepts(
            body@,
        )),
        !is_unknown_response && !unsupported(config.response_type) && !json_accepts(body@) ==> r matches Err(
            EchoError::JsonError(_, _),
        ),
        !is_unknown_response ==> (r matches Ok(p) ==> (p matches ParsedResponse::Response(resp) && {
            &&& resp.data == json_of(body@)
            &&& resp.status == status
            &&& resp.status_text@ == status_text_of(reason_of(reason))
            &&& resp.headers == headers
            &&& resp.config == config
            &&& resp.request@ == resolved(base_of(config.base_url), url@)
        })),
{
    if is_unknown_response {
        Ok(
            ParsedResponse::ResponseUnknown(
                parse_response_unknown(body, status, reason, headers, config, url),
            ),
        )
    } else {
        match parse_response(body, status, reason, headers, config, url) {
            Ok(resp) => Ok(ParsedResponse::Response(resp)),
            Err(e) => Err(e),
        }
    }
}

} // verus!
