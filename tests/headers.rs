use echo_http::{EchoError, Headers};
use reqwest::header::HeaderMap;

#[test]
fn test_insert_single_header() {
    let mut headers = Headers::new();
    headers.insert("Content-Type: application/json").unwrap();

    assert_eq!(
        headers.get("Content-Type"),
        Some(&"application/json".to_string())
    );
}

#[test]
fn test_insert_many_headers() {
    let mut headers = Headers::new();
    headers
        .insert_many(vec![
            "Content-Type: application/json",
            "Authorization: Bearer token",
        ])
        .unwrap();

    assert_eq!(
        headers.get("Content-Type"),
        Some(&"application/json".to_string())
    );
    assert_eq!(
        headers.get("Authorization"),
        Some(&"Bearer token".to_string())
    );
}

#[test]
fn test_into_header_map() {
    let mut headers = Headers::new();
    headers.insert("Content-Type: application/json").unwrap();
    headers.insert("Authorization: Bearer token").unwrap();

    let header_map: HeaderMap = headers.to_header_map().unwrap();
    assert_eq!(header_map["Content-Type"], "application/json");
    assert_eq!(header_map["Authorization"], "Bearer token");
}

#[test]
fn insert_trims_name_and_value() {
    let mut headers = Headers::new();
    headers.insert("  Content-Type :\t application/json  ").unwrap();
    assert_eq!(
        headers.get("Content-Type"),
        Some(&"application/json".to_string())
    );
    assert_eq!(headers.len(), 1);
}

#[test]
fn insert_splits_at_first_colon() {
    let mut headers = Headers::new();
    headers.insert("Location: https://example.com:8080/x").unwrap();
    assert_eq!(
        headers.get("Location"),
        Some(&"https://example.com:8080/x".to_string())
    );
}

#[test]
fn insert_without_colon_is_malformed() {
    let mut headers = Headers::new();
    let r = headers.insert("malformed-header");
    match r {
        Err(EchoError::MalformedHeader(line)) => assert_eq!(line, "malformed-header"),
        other => panic!("unexpected result: {:?}", other),
    }
    assert_eq!(headers.len(), 0);
    assert_eq!(headers.get("malformed-header"), None);
}

#[test]
fn insert_replaces_earlier_value() {
    let mut headers = Headers::new();
    headers.insert("Accept: text/plain").unwrap();
    headers.insert("Accept: application/json").unwrap();
    assert_eq!(headers.len(), 1);
    assert_eq!(headers.get("Accept"), Some(&"application/json".to_string()));
}

#[test]
fn keys_are_case_sensitive() {
    let mut headers = Headers::new();
    headers.insert("accept: a").unwrap();
    headers.insert("Accept: b").unwrap();
    assert_eq!(headers.len(), 2);
    assert_eq!(headers.get("accept"), Some(&"a".to_string()));
    assert_eq!(headers.get("Accept"), Some(&"b".to_string()));
}

#[test]
fn insert_many_stops_at_first_malformed_line() {
    let mut headers = Headers::new();
    let r = headers.insert_many(vec!["A: 1", "no colon here", "B: 2"]);
    match r {
        Err(EchoError::MalformedHeader(line)) => assert_eq!(line, "no colon here"),
        other => panic!("unexpected result: {:?}", other),
    }
    assert_eq!(headers.get("A"), Some(&"1".to_string()));
    assert_eq!(headers.get("B"), None);
}

#[test]
fn empty_name_and_value_are_stored() {
    let mut headers = Headers::new();
    headers.insert(":").unwrap();
    assert_eq!(headers.get(""), Some(&"".to_string()));
}

#[test]
fn header_map_refuses_invalid_value() {
    let mut headers = Headers::new();
    headers.insert("X-Bad: a\u{1}b").unwrap();
    match headers.to_header_map() {
        Err(EchoError::InvalidHeaderValue(name)) => assert_eq!(name, "X-Bad"),
        other => panic!("unexpected result: {:?}", other),
    }
}

#[test]
fn header_map_refuses_invalid_name() {
    let mut headers = Headers::new();
    headers.insert("Bad Name: x").unwrap();
    match headers.to_header_map() {
        Err(EchoError::InvalidHeaderValue(name)) => assert_eq!(name, "Bad Name"),
        other => panic!("unexpected result: {:?}", other),
    }
}

#[test]
fn header_map_of_empty_store_is_empty() {
    let headers = Headers::default();
    let map = headers.to_header_map().unwrap();
    assert!(map.is_empty());
}

#[test]
fn cloned_store_keeps_entries() {
    let mut headers = Headers::new();
    headers.insert("A: 1").unwrap();
    let copy = headers.clone();
    assert_eq!(copy.get("A"), Some(&"1".to_string()));
    assert_eq!(copy.len(), 1);
}

#[test]
fn header_map_accepts_longest_name() {
    let name = "a".repeat(65535);
    let mut headers = Headers::new();
    headers.insert(&format!("{}: v", name)).unwrap();
    let map = headers.to_header_map().unwrap();
    assert_eq!(map[name.as_str()], "v");
}

#[test]
fn header_map_refuses_overlong_name() {
    let name = "a".repeat(65536);
    let mut headers = Headers::new();
    headers.insert(&format!("{}: v", name)).unwrap();
    match headers.to_header_map() {
        Err(EchoError::InvalidHeaderValue(n)) => assert_eq!(n.len(), 65536),
        other => panic!("unexpected result: {:?}", other.map(|m| m.len())),
    }
}

#[test]
fn header_map_accepts_non_ascii_value() {
    let mut headers = Headers::new();
    headers.insert("X-Name: Zoë").unwrap();
    let map = headers.to_header_map().unwrap();
    assert_eq!(map["x-name"].as_bytes(), "Zoë".as_bytes());
}

#[test]
fn stores_compare_as_maps() {
    let mut a = Headers::new();
    a.insert_many(vec!["A: 1", "B: 2"]).unwrap();
    let mut b = Headers::new();
    b.insert_many(vec!["B: 2", "A: 0", "A: 1"]).unwrap();
    assert!(a == b);
    b.insert("B: 3").unwrap();
    assert!(a != b);
    b.insert("B: 2").unwrap();
    b.insert("C: 2").unwrap();
    assert!(a != b);
    assert!(Headers::new() == Headers::default());
}

#[test]
fn header_map_holds_every_entry_in_lower_case() {
    let mut headers = Headers::new();
    headers
        .insert_many(vec!["Content-Type: application/json", "X-Trace: abc", "accept: */*"])
        .unwrap();
    let map = headers.to_header_map().unwrap();
    assert_eq!(map.len(), 3);
    assert_eq!(map["content-type"], "application/json");
    assert_eq!(map["x-trace"], "abc");
    assert_eq!(map["Accept"], "*/*");
}

#[test]
fn header_map_merges_names_equal_in_lower_case() {
    let mut headers = Headers::new();
    headers.insert("Content-Type: a").unwrap();
    headers.insert("content-type: b").unwrap();
    assert_eq!(headers.len(), 2);
    let map = headers.to_header_map().unwrap();
    assert_eq!(map.len(), 1);
    let v = map["content-type"].to_str().unwrap();
    assert!(v == "a" || v == "b");
}

#[test]
fn header_map_holds_many_entries() {
    let mut headers = Headers::new();
    for i in 0..300 {
        headers.insert(&format!("X-H{}: {}", i, i)).unwrap();
    }
    let map = headers.to_header_map().unwrap();
    assert_eq!(map.len(), 300);
    assert_eq!(map["x-h299"], "299");
}
