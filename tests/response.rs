use echo_http::{
    parse, parse_response, parse_response_unknown, EchoError, Headers, ParsedResponse,
    RequestConfig, Response, ResponseType, ResponseUnknown,
};
use reqwest::header::HeaderMap;
use serde_json::Value;

fn object(entries: Vec<(&str, Value)>) -> Value {
    let mut m = serde_json::Map::new();
    for (k, v) in entries {
        m.insert(k.to_string(), v);
    }
    Value::Object(m)
}

#[test]
fn test_response_creation() {
    let mut headers = Headers::new();
    headers.insert("Content-Type: application/json").unwrap();

    let config = RequestConfig {
        base_url: Some("https://api.example.com".to_string()),
        timeout: Some(30),
        headers: Some(headers.clone()),
        params: None,
        response_type: ResponseType::Json,
        ..RequestConfig::default()
    };

    let response = Response {
        data: object(vec![("message", Value::String("success".to_string()))]),
        status: 200,
        status_text: "OK".to_string(),
        headers: headers.to_header_map().unwrap(),
        config,
        request: "https://api.example.com/test".to_string(),
    };

    assert_eq!(response.status, 200);
    assert_eq!(response.status_text, "OK");
    assert_eq!(response.request, "https://api.example.com/test");
    assert_eq!(response.data["message"], "success");
}

#[test]
fn test_response_unknown() {
    let mut headers = Headers::new();
    headers.insert("Content-Type: application/json").unwrap();

    let config = RequestConfig {
        base_url: Some("https://api.example.com".to_string()),
        timeout: Some(30),
        headers: Some(headers.clone()),
        params: None,
        response_type: ResponseType::Json,
        ..RequestConfig::default()
    };

    let response = Response {
        data: object(vec![
            ("id", Value::from(123)),
            ("name", Value::String("Test".to_string())),
        ]),
        status: 201,
        status_text: "Created".to_string(),
        headers: headers.to_header_map().unwrap(),
        config,
        request: "https://api.example.com/users".to_string(),
    };

    let response_unknown = ResponseUnknown { inner: response };

    assert_eq!(response_unknown.status, 201);
    assert_eq!(response_unknown.status_text, "Created");
    assert_eq!(response_unknown.request, "https://api.example.com/users");
    assert_eq!(response_unknown.data["id"], 123);
}

#[test]
fn typed_decode_reads_fields_and_status() {
    let r = parse_response(
        br#"{"id":1,"title":"x"}"#,
        200,
        Some("OK"),
        HeaderMap::new(),
        RequestConfig::default(),
        "https://api.example.com/posts/1",
    )
    .unwrap();
    assert_eq!(r.data["id"], 1);
    assert_eq!(r.data["title"], "x");
    assert_eq!(r.status, 200);
    assert_eq!(r.status_text, "OK");
    assert_eq!(r.request, "https://api.example.com/posts/1");
}

#[test]
fn typed_decode_fails_on_invalid_body() {
    let r = parse_response(
        b"<html>",
        500,
        Some("Internal Server Error"),
        HeaderMap::new(),
        RequestConfig::default(),
        "/x",
    );
    assert!(matches!(r, Err(EchoError::JsonError(_, _))));
}

#[test]
fn typed_decode_refuses_document_and_stream() {
    for rt in [ResponseType::Document, ResponseType::Stream] {
        let config = RequestConfig {
            response_type: rt,
            ..RequestConfig::default()
        };
        let r = parse_response(b"{}", 200, Some("OK"), HeaderMap::new(), config, "/x");
        match r {
            Err(EchoError::UnsupportedResponseType(t)) => assert_eq!(t, rt),
            other => panic!("unexpected result: {:?}", other),
        }
    }
}

#[test]
fn untyped_decode_of_empty_or_invalid_body_is_null() {
    for body in [&b""[..], &b"not json"[..], &b"{\"a\":"[..]] {
        let r = parse_response_unknown(
            body,
            204,
            Some("No Content"),
            HeaderMap::new(),
            RequestConfig::default(),
            "/x",
        );
        assert!(r.data.is_null());
        assert_eq!(r.status, 204);
        assert_eq!(r.status_text, "No Content");
    }
}

#[test]
fn unknown_reason_gives_empty_status_text() {
    let r = parse_response_unknown(b"1", 599, None, HeaderMap::new(), RequestConfig::default(), "/x");
    assert_eq!(r.status_text, "");
    assert_eq!(r.data, 1);
}

#[test]
fn end_to_end_user_lookup() {
    let config = RequestConfig {
        base_url: Some("https://api.example.com/".to_string()),
        ..RequestConfig::default()
    };
    let r = parse_response(
        br#"{"name":"a"}"#,
        200,
        Some("OK"),
        HeaderMap::new(),
        config,
        "/users/1",
    )
    .unwrap();
    assert_eq!(r.request, "https://api.example.com//users/1");
    assert_eq!(r.status, 200);
    assert_eq!(r.data, object(vec![("name", Value::String("a".to_string()))]));
}

#[test]
fn end_to_end_delete_gives_empty_object() {
    for status in [200u16, 204u16] {
        let r = parse_response_unknown(
            b"{}",
            status,
            Some("OK"),
            HeaderMap::new(),
            RequestConfig::default(),
            "https://api.example.com/posts/1",
        );
        assert_eq!(r.data, object(vec![]));
        assert_eq!(r.status, status);
        assert_eq!(r.request, "https://api.example.com/posts/1");
    }
}

#[test]
fn parse_picks_untyped_or_typed() {
    let u = parse(b"", 200, Some("OK"), HeaderMap::new(), RequestConfig::default(), "/x", true).unwrap();
    match u {
        ParsedResponse::ResponseUnknown(u) => assert!(u.data.is_null()),
        other => panic!("unexpected result: {:?}", other),
    }
    let t = parse(b"", 200, Some("OK"), HeaderMap::new(), RequestConfig::default(), "/x", false);
    assert!(matches!(t, Err(EchoError::JsonError(_, _))));
    let t = parse(b"[1]", 200, Some("OK"), HeaderMap::new(), RequestConfig::default(), "/x", false).unwrap();
    match t {
        ParsedResponse::Response(r) => assert_eq!(r.data[0], 1),
        other => panic!("unexpected result: {:?}", other),
    }
}

#[test]
fn typed_decode_error_names_declared_type() {
    let config = RequestConfig {
        response_type: ResponseType::Text,
        ..RequestConfig::default()
    };
    match parse_response(b"nope", 200, Some("OK"), HeaderMap::new(), config, "/x") {
        Err(EchoError::JsonError(t, _)) => assert_eq!(t, ResponseType::Text),
        other => panic!("unexpected result: {:?}", other),
    }
}

#[test]
fn untyped_view_forwards_to_inner_response() {
    let r = parse_response_unknown(b"{\"id\":7}", 201, Some("Created"), HeaderMap::new(), RequestConfig::default(), "/u");
    let inner: &Response<Value> = &r;
    assert_eq!(inner.status, 201);
    assert_eq!(inner.data["id"], 7);
    assert!(std::ptr::eq(inner, &r.inner));
}
