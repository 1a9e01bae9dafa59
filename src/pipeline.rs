//! The request pipeline: which configuration layers go onto an outgoing
//! request, and in which order.

use vstd::prelude::*;

use reqwest::header::HeaderMap;

use crate::error::EchoError;
use crate::headers::{
    all_encodable, carries, header_entries, valid_header_name, valid_header_value,
    HEADER_MAP_LIMIT,
};
use crate::request::RequestConfig;

verus! {

/// One layer applied to an outgoing request.
#[derive(Debug)]
pub enum RequestLayer {
    /// Attach these headers, replacing the transport's defaults.
    Headers(HeaderMap),
    /// Bound the whole call to this many seconds.
    Timeout(u64),
    /// Serialize the request body as JSON and attach it.
    Body,
    /// Append the configured query parameters to the URL.
    Query,
}

/// The shape of a layer, without the header map it may carry.
#[derive(Debug, Clone, Copy, PartialEq, Eq, Structural)]
pub enum LayerKind {
    Headers,
    Timeout(u64),
    Body,
    Query,
}

impl RequestLayer {
    /// The shape of this layer.
    pub open spec fn kind(self) -> LayerKind {
        match self {
            RequestLayer::Headers(_) => LayerKind::Headers,
            RequestLayer::Timeout(t) => LayerKind::Timeout(t),
            RequestLayer::Body => LayerKind::Body,
            RequestLayer::Query => LayerKind::Query,
        }
    }
}

/// The layers of a request, in the order they are applied: headers, a
/// timeout of more than zero seconds, the body, the query parameters; each
/// only where it is present.
pub open spec fn planned_layers(
    has_headers: bool,
    timeout: Option<u64>,
    has_body: bool,
    has_query: bool,
) -> Seq<LayerKind> {
    (if has_headers {
        seq![LayerKind::Headers]
    } else {
        Seq::empty()
    }) + (match timeout {
        Some(t) => if t > 0 {
            seq![LayerKind::Timeout(t)]
        } else {
            Seq::empty()
        },
        None => Seq::empty(),
    }) + (if has_body {
        seq![LayerKind::Body]
    } else {
        Seq::empty()
    }) + (if has_query {
        seq![LayerKind::Query]
    } else {
        Seq::empty()
    })
}

/// The shapes of a sequence of layers.
pub open spec fn kinds(layers: Seq<RequestLayer>) -> Seq<LayerKind> {
    layers.map_values(|l: RequestLayer| l.kind())
}

/// The layers to apply, in order, to a request made under `config`, with a
/// body where `has_body` holds. The headers layer carries the configured
/// headers. Fails only where the configured headers cannot be encoded for the
/// transport, or are too many for its header map.
pub fn request_layers(config: &RequestConfig, has_body: bool) -> (r: Result<
    Vec<RequestLayer>,
    EchoError,
>)
    ensures
        r matches Ok(v) ==> kinds(v@) == planned_layers(
            config.headers is Some,
            config.timeout,
            has_body,
            config.params is Some,
        ),
        r is Err ==> config.headers is Some,
        config.headers matches Some(h) ==> (all_encodable(h@) && h@.len() < HEADER_MAP_LIMIT
            ==> r is Ok),
        config.headers matches Some(h) ==> (r matches Ok(v) ==> (v@[0] matches RequestLayer::Headers(
            m,
        ) && carries(header_entries(m), h@))),
        config.headers matches Some(h) ==> (r matches Err(EchoError::InvalidHeaderValue(k))
            ==> h@.contains_key(k@) && !(valid_header_name(k@) && valid_header_value(h@[k@]))),
        config.headers matches Some(h) ==> (!all_encodable(h@) && h@.len() < HEADER_MAP_LIMIT
            ==> r matches Err(EchoError::InvalidHeaderValue(_))),
        config.headers matches Some(h) ==> (!all_encodable(h@) ==> r is Err),
        r matches Err(EchoError::TooManyHeaders) ==> (config.headers matches Some(h) && h@.len()
            >= HEADER_MAP_LIMIT),
        r is Err ==> (r matches Err(EchoError::InvalidHeaderValue(_)) || r matches Err(
            EchoError::TooManyHeaders,
        )),
{
    let mut layers: Vec<RequestLayer> = Vec::new();
    match &config.headers {
        Some(h) => match h.to_header_map() {
            Ok(map) => layers.push(RequestLayer::Headers(map)),
            Err(e) => {
                return Err(e);
            },
        },
        None => {},
    }
    match config.timeout {
        Some(t) => {
            if t > 0 {
                layers.push(RequestLayer::Timeout(t));
            }
        },
        None => {},
    }
    if has_body {
        layers.push(RequestLayer::Body);
    }
    if config.params.is_some() {
        layers.push(RequestLayer::Query);
    }
    assert(kinds(layers@) =~= planned_layers(
        config.headers is Some,
        config.timeout,
        has_body,
        config.params is Some,
    ));
    Ok(layers)
}

} // verus!
