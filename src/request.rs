//! Request configuration: what a client applies to every call it makes.

use vstd::prelude::*;

use std::collections::HashMap;

use reqwest::header::HeaderMap;
use serde_json::Value;

use crate::headers::Headers;
use crate::method::Method;
use crate::text::same_text;
use crate::url::{resolve, resolved};

verus! {

/// How a response body is to be read before it is decoded.
#[derive(Debug, Clone, Copy, PartialEq, Eq, Structural)]
pub enum ResponseType {
    ArrayBuffer,
    Document,
    Json,
    Text,
    Stream,
}

/// The lower-case form of `s`, as std's `to_lowercase` computes it.
pub uninterp spec fn lower_of(s: Seq<char>) -> Seq<char>;

/// Relies on `str::to_lowercase`: the result depends on the characters alone.
#[verifier::external_body]
fn lowercase(s: &str) -> (r: String)
    ensures
        r@ == lower_of(s@),
{
    s.to_lowercase()
}

/// The response type whose name is exactly `s`.
pub open spec fn response_type_named(s: Seq<char>) -> Option<ResponseType> {
    if s == "arraybuffer"@ {
        Some(ResponseType::ArrayBuffer)
    } else if s == "document"@ {
        Some(ResponseType::Document)
    } else if s == "json"@ {
        Some(ResponseType::Json)
    } else if s == "text"@ {
        Some(ResponseType::Text)
    } else if s == "stream"@ {
        Some(ResponseType::Stream)
    } else {
        None
    }
}

impl ResponseType {
    /// The response type whose (lower-case) name is `name`, compared exactly.
    pub fn from_lower(name: &str) -> (r: Option<ResponseType>)
        ensures
            r == response_type_named(name@),
    {
        if same_text(name, "arraybuffer") {
            Some(ResponseType::ArrayBuffer)
        } else if same_text(name, "document") {
            Some(ResponseType::Document)
        } else if same_text(name, "json") {
            Some(ResponseType::Json)
        } else if same_text(name, "text") {
            Some(ResponseType::Text)
        } else if same_text(name, "stream") {
            Some(ResponseType::Stream)
        } else {
            None
        }
    }

    /// Reads a response type name in any letter case.
    pub fn parse(s: &str) -> (r: Result<ResponseType, String>)
        ensures
            response_type_named(lower_of(s@)) matches Some(t) ==> r == Ok::<
                ResponseType,
                String,
            >(t),
            response_type_named(lower_of(s@)) is None ==> (r matches Err(e) && e@
                == "Invalid response type: "@ + s@),
    {
        let lower = lowercase(s);
        match ResponseType::from_lower(lower.as_str()) {
            Some(t) => Ok(t),
            None => {
                let mut msg = String::from_str("Invalid response type: ");
                msg.append(s);
                Err(msg)
            },
        }
    }
}

impl std::str::FromStr for ResponseType {
    type Err = String;

    fn from_str(s: &str) -> (r: Result<ResponseType, String>)
        ensures
            response_type_named(lower_of(s@)) matches Some(t) ==> r == Ok::<
                ResponseType,
                String,
            >(t),
            response_type_named(lower_of(s@)) is None ==> (r matches Err(e) && e@
                == "Invalid response type: "@ + s@),
    {
        ResponseType::parse(s)
    }
}

/// The base URL of a configuration, as characters.
pub open spec fn base_of(base_url: Option<String>) -> Option<Seq<char>> {
    match base_url {
        Some(b) => Some(b@),
        None => None,
    }
}

/// What a client applies to each request; an absent field leaves the
/// transport's default in place.
#[derive(Debug, Clone)]
pub struct RequestConfig {
    /// The URL of the request.
    pub url: Option<String>,
    /// The request method.
    pub method: Method,
    /// Prepended to each request path; without it a path is a full URL.
    pub base_url: Option<String>,
    /// Headers sent with each request.
    pub headers: Option<Headers>,
    /// Query parameters appended to each request URL.
    pub params: Option<HashMap<String, String>>,
    /// A request body.
    pub data: Option<Value>,
    /// The most seconds a request may take; none or zero means no limit.
    pub timeout: Option<u64>,
    /// How response bodies are read before they are decoded.
    pub response_type: ResponseType,
}

impl Default for RequestConfig {
    fn default() -> (r: RequestConfig)
        ensures
            r.url is None,
            r.method == Method::Get,
            r.base_url is None,
            r.headers is None,
            r.params is None,
            r.data is None,
            r.timeout is None,
            r.response_type == ResponseType::Json,
    {
        RequestConfig {
            url: None,
            method: Method::Get,
            base_url: None,
            headers: None,
            params: None,
            data: None,
            timeout: None,
            response_type: ResponseType::Json,
        }
    }
}

impl RequestConfig {
    /// The full URL that a request to `url` goes to under this configuration.
    pub fn get_full_url(&self, url: &str) -> (r: String)
        ensures
            r@ == resolved(base_of(self.base_url), url@),
    {
        match &self.base_url {
            Some(b) => resolve(Some(b.as_str()), url),
            None => resolve(None, url),
        }
    }
}

/// One request: its URL and method, with the configuration fields that may
/// be set for it alone.
#[derive(Debug, Clone)]
pub struct Request {
    pub url: String,
    pub method: Method,
    pub base_url: Option<String>,
    pub headers: Option<Headers>,
    pub params: Option<HashMap<String, String>>,
    pub data: Option<Value>,
    pub timeout: Option<u64>,
}

impl Request {
    /// A request to `url` with `method` and nothing else set.
    pub fn new(url: String, method: Method) -> (r: Request)
        ensures
            r.url == url,
            r.method == method,
            r.base_url is None,
            r.headers is None,
            r.params is None,
            r.data is None,
            r.timeout is None,
    {
        Request { url, method, base_url: None, headers: None, params: None, data: None, timeout: None }
    }
}

/// A minimal client configuration: base URL, timeout and headers already in
/// the transport's form.
#[derive(Debug, Clone)]
pub struct Config {
    pub base_url: Option<String>,
    pub timeout: Option<u64>,
    pub headers: Option<HeaderMap>,
}

impl Default for Config {
    fn default() -> (r: Config)
        ensures
            r.base_url is None,
            r.timeout is None,
            r.headers is None,
    {
        Config { base_url: None, timeout: None, headers: None }
    }
}

} // verus!
