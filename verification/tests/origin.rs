use http::{HeaderMap, HeaderValue};
use memos_mcp_server::origin::{
    check_request_origin, has_host, host_port_host, is_allowed_origin, origin_matches, UrlParts,
};

fn host(s: &str) -> String {
    host_port_host(s).expect("host")
}

fn parts(scheme: &str, host: Option<&str>) -> Option<UrlParts> {
    Some(UrlParts {
        scheme: scheme.to_string(),
        host: host.map(|h| h.to_string()),
    })
}

#[test]
fn empty_origin_allowed() {
    assert!(is_allowed_origin("example.com", None, ""));
}

#[test]
fn same_host_allowed() {
    assert!(is_allowed_origin(
        "example.com:5230",
        Some("https://example.com:5230"),
        ""
    ));
}

#[test]
fn blank_origin_is_no_origin() {
    assert!(is_allowed_origin("example.com", Some(""), ""));
    assert!(is_allowed_origin("", Some(""), ""));
}

#[test]
fn foreign_origin_rejected() {
    assert!(!is_allowed_origin(
        "example.com",
        Some("https://elsewhere.org"),
        ""
    ));
    assert!(!is_allowed_origin(
        "example.com",
        Some("https://elsewhere.org"),
        "https://memos.example"
    ));
}

#[test]
fn instance_url_allows_its_own_origin() {
    assert!(is_allowed_origin(
        "127.0.0.1:8080",
        Some("https://memos.example"),
        "https://memos.example/path"
    ));
    assert!(is_allowed_origin(
        "127.0.0.1:8080",
        Some("http://memos.example:3000"),
        "https://memos.example"
    ));
    assert!(is_allowed_origin(
        "",
        Some("http://memos.example"),
        "https://memos.example"
    ));
    assert!(!is_allowed_origin(
        "127.0.0.1:8080",
        Some("https://memos.example"),
        "not a url"
    ));
}

#[test]
fn ports_of_the_origin_do_not_matter() {
    assert!(is_allowed_origin(
        "example.com",
        Some("http://example.com:3000"),
        ""
    ));
}

#[test]
fn origin_that_is_no_url_rejected() {
    assert!(!is_allowed_origin("example.com", Some("null"), ""));
    assert!(!is_allowed_origin("null", Some("null"), ""));
}

#[test]
fn origin_without_host_rejected() {
    assert!(!is_allowed_origin(
        "example.com",
        Some("data:text/plain,x"),
        "data:text/plain,x"
    ));
    assert!(!is_allowed_origin("", Some("mailto:a@b.c"), ""));
}

#[test]
fn url_host_is_compared_as_the_parser_gives_it() {
    // The parser turns the host to lower case; the header stays as it is.
    assert!(is_allowed_origin(
        "example.com",
        Some("HTTPS://EXAMPLE.COM"),
        ""
    ));
    assert!(!is_allowed_origin(
        "EXAMPLE.COM",
        Some("https://example.com"),
        ""
    ));
}

#[test]
fn hosts_of_headers() {
    assert_eq!(host("example.com"), "example.com");
    assert_eq!(host("example.com:5230"), "example.com");
    assert_eq!(host("example.com:"), "example.com");
    assert_eq!(host("user@example.com:80"), "example.com");
    assert_eq!(host("a@b@example.com"), "example.com");
    assert_eq!(host("[::1]:8080"), "::1");
    assert_eq!(host("[::1]"), "::1");
    assert_eq!(host("::1"), ":");
    assert_eq!(host("example.com:http"), "example.com:http");
    assert_eq!(host(":80"), "");
}

#[test]
fn headers_without_host() {
    assert!(!has_host(""));
    assert!(!has_host("8080"));
    assert!(!has_host("user@"));
    assert!(!has_host("[8080"));
    assert!(has_host(":8080"));
    assert!(has_host("localhost"));
    assert!(has_host("[8080]"));
}

#[test]
fn origin_without_a_host_to_agree_with_rejected() {
    assert!(!is_allowed_origin("", Some("https://evil.example"), ""));
    assert!(!is_allowed_origin("8080", Some("https://a.b"), ""));
    assert!(!is_allowed_origin("", Some("null"), ""));
    assert!(is_allowed_origin("", None, ""));
}

#[test]
fn same_ipv6_host_allowed() {
    assert!(is_allowed_origin(
        "[::1]:5230",
        Some("http://[::1]:5230"),
        ""
    ));
    assert!(is_allowed_origin("[::1]", Some("https://[::1]"), ""));
    assert!(!is_allowed_origin("[::2]:5230", Some("http://[::1]"), ""));
    assert!(is_allowed_origin(
        "localhost",
        Some("http://[::1]"),
        "https://[::1]:8443"
    ));
}

#[test]
fn matching_on_parsed_origins() {
    let o = "https://a.b";
    assert!(origin_matches("a.b", o, parts("https", Some("a.b")), "", None));
    assert!(!origin_matches("c.d", o, parts("https", Some("a.b")), "", None));
    assert!(origin_matches(
        "c.d",
        o,
        parts("https", Some("a.b")),
        "x",
        parts("https", Some("a.b"))
    ));
    assert!(!origin_matches(
        "c.d",
        o,
        parts("https", Some("a.b")),
        "",
        parts("https", Some("a.b"))
    ));
    assert!(!origin_matches(
        "c.d",
        o,
        parts("https", Some("a.b")),
        "x",
        parts("https", Some("e.f"))
    ));
    assert!(origin_matches(
        "c.d",
        o,
        parts("https", Some("a.b")),
        "x",
        parts("http", Some("a.b"))
    ));
    assert!(origin_matches(
        "[::1]:80",
        "http://[::1]",
        parts("http", Some("[::1]")),
        "",
        None
    ));
    assert!(!origin_matches("", o, parts("https", Some("")), "", None));
    assert!(origin_matches("", "", None, "", None));
    assert!(!origin_matches(
        "c.d",
        o,
        parts("https", Some("a.b")),
        "x",
        parts("https", None)
    ));
    assert!(!origin_matches("a.b", o, None, "", None));
    assert!(!origin_matches("a.b", o, parts("https", None), "", None));
}

#[test]
fn requests_are_checked_by_their_headers() {
    let mut h = HeaderMap::new();
    assert!(check_request_origin(&h, ""));
    h.insert("origin", HeaderValue::from_static("https://a.b"));
    assert!(!check_request_origin(&h, ""));
    h.insert("host", HeaderValue::from_static("a.b:443"));
    assert!(check_request_origin(&h, ""));
    h.insert("host", HeaderValue::from_static("c.d"));
    assert!(!check_request_origin(&h, ""));
    assert!(check_request_origin(&h, "https://a.b"));
}
