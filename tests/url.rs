use echo_http::{find_char, parse_url, resolve, trim, RequestConfig};

#[test]
fn internal_test_parse_url() {
    assert_eq!(parse_url("/endpoint/"), "endpoint");
    assert_eq!(parse_url("endpoint/"), "endpoint");
    assert_eq!(parse_url("/endpoint"), "endpoint");
    assert_eq!(parse_url("endpoint"), "endpoint");
}

#[test]
fn internal_test_get_full_url_with_base_url() {
    let config = RequestConfig {
        base_url: Some("https://api.example.com".to_string()),
        ..Default::default()
    };

    assert_eq!(
        config.get_full_url("/endpoint"),
        "https://api.example.com/endpoint"
    );
    assert_eq!(
        config.get_full_url("endpoint/"),
        "https://api.example.com/endpoint"
    );
}

#[test]
fn internal_test_get_full_url_without_base_url() {
    let config = RequestConfig::default();
    assert_eq!(
        config.get_full_url("https://api.example.com/endpoint"),
        "https://api.example.com/endpoint"
    );
}

#[test]
fn echo_internal_test_parse_url() {
    assert_eq!(parse_url("/endpoint/"), "endpoint");
    assert_eq!(parse_url("endpoint/"), "endpoint");
    assert_eq!(parse_url("/endpoint"), "endpoint");
    assert_eq!(parse_url("endpoint"), "endpoint");
}

#[test]
fn echo_internal_test_get_full_url_with_base_url() {
    let config = RequestConfig {
        base_url: Some("https://api.example.com".to_string()),
        ..Default::default()
    };

    assert_eq!(
        config.get_full_url("/endpoint"),
        "https://api.example.com/endpoint"
    );
    assert_eq!(
        config.get_full_url("endpoint/"),
        "https://api.example.com/endpoint"
    );
}

#[test]
fn echo_internal_test_get_full_url_without_base_url() {
    let config = RequestConfig::default();
    assert_eq!(
        config.get_full_url("https://api.example.com/endpoint"),
        "https://api.example.com/endpoint"
    );
}

#[test]
fn resolve_without_base_passes_path_through() {
    for p in ["", "/", "users/1", "/users/1/", "https://x.org/a?b=c"] {
        assert_eq!(resolve(None, p), p);
    }
}

#[test]
fn resolve_ignores_one_wrapping_slash() {
    let b = Some("https://api.example.com");
    for p in ["", "users", "users/1"] {
        let wrapped = format!("/{}/", p);
        assert_eq!(resolve(b, p), resolve(b, &wrapped));
    }
}

#[test]
fn resolve_strips_only_one_slash_at_each_end() {
    let b = Some("https://api.example.com");
    assert_eq!(resolve(b, "//x//"), "https://api.example.com//x/");
    assert_eq!(resolve(b, "/x"), "https://api.example.com/x");
    assert_ne!(resolve(b, "/x"), resolve(b, "//x/"));
}

#[test]
fn resolve_empty_path_ends_with_slash() {
    assert_eq!(resolve(Some("https://a.b"), ""), "https://a.b/");
    assert_eq!(resolve(Some("https://a.b"), "/"), "https://a.b/");
}

#[test]
fn resolve_keeps_base_as_given() {
    assert_eq!(
        resolve(Some("https://api.example.com/"), "/users/1"),
        "https://api.example.com//users/1"
    );
}

#[test]
fn parse_url_of_single_slash_is_empty() {
    assert_eq!(parse_url("/"), "");
    assert_eq!(parse_url("//"), "");
    assert_eq!(parse_url(""), "");
}

#[test]
fn trim_removes_unicode_whitespace() {
    assert_eq!(trim(" \t\u{3000}a b\u{a0}\n"), "a b");
    assert_eq!(trim("   "), "");
    assert_eq!(trim("x"), "x");
}

#[test]
fn find_char_gives_first_position() {
    assert_eq!(find_char("a:b:c", ':'), Some(1));
    assert_eq!(find_char("abc", ':'), None);
    assert_eq!(find_char("é:", ':'), Some(1));
}
