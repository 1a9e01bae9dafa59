//! A configurable HTTP request client: the configuration it carries, how it
//! joins URLs, how it stores headers, which layers go onto a request, and
//! how it decodes response bodies.

pub mod decode;
pub mod error;
pub mod headers;
pub mod json;
pub mod method;
pub mod pipeline;
pub mod request;
pub mod response;
pub mod text;
pub mod url;

pub use decode::{body_format, decode_body, decode_body_lenient, BodyFormat};
pub use error::EchoError;
pub use headers::Headers;
pub use method::Method;
pub use pipeline::{request_layers, LayerKind, RequestLayer};
pub use request::{Config, Request, RequestConfig, ResponseType};
pub use response::{parse, parse_response, parse_response_unknown, ParsedResponse, Response, ResponseUnknown};
pub use text::{find_char, trim};
pub use url::{parse_url, resolve};
