use http::{HeaderMap, HeaderName, HeaderValue};
use memos_mcp_server::headers::{bearer_token, request_token, token_from};

fn headers(pairs: &[(&str, &str)]) -> HeaderMap {
    let mut h = HeaderMap::new();
    for (k, v) in pairs {
        h.insert(
            k.parse::<HeaderName>().expect("header name"),
            HeaderValue::from_str(v).expect("header value"),
        );
    }
    h
}

#[test]
fn caller_bearer_wins_over_fallback() {
    let h = headers(&[("authorization", "Bearer memos_pat_abc")]);
    assert_eq!(request_token(&h, "fallback"), "memos_pat_abc");
}

#[test]
fn scheme_is_case_insensitive_and_trimmed() {
    let h = headers(&[("authorization", "bearer   tok123  ")]);
    assert_eq!(request_token(&h, "fallback"), "tok123");
}

#[test]
fn missing_or_malformed_auth_falls_back() {
    assert_eq!(request_token(&headers(&[]), "fallback"), "fallback");
    let h = headers(&[("authorization", "Basic dXNlcjpwYXNz")]);
    assert_eq!(request_token(&h, "fallback"), "fallback");
    let h = headers(&[("authorization", "Bearer ")]);
    assert_eq!(request_token(&h, "fallback"), "fallback");
    let h = headers(&[("authorization", "Bearer")]);
    assert_eq!(request_token(&h, "fallback"), "fallback");
}

#[test]
fn header_name_case_does_not_matter() {
    let h = headers(&[("AUTHORIZATION", "BEARER t")]);
    assert_eq!(request_token(&h, "fallback"), "t");
}

#[test]
fn first_of_several_values_counts() {
    let mut h = HeaderMap::new();
    h.append("authorization", HeaderValue::from_static("Bearer one"));
    h.append("authorization", HeaderValue::from_static("Bearer two"));
    assert_eq!(request_token(&h, ""), "one");
}

#[test]
fn value_that_is_not_text_falls_back() {
    let mut h = HeaderMap::new();
    h.insert(
        "authorization",
        HeaderValue::from_bytes(b"Bearer t\xc3\xa9").expect("header value"),
    );
    assert_eq!(request_token(&h, "fallback"), "fallback");
}

#[test]
fn value_with_tab_is_text() {
    let h = headers(&[("authorization", "Bearer \ttok")]);
    assert_eq!(request_token(&h, "fallback"), "tok");
}

#[test]
fn other_headers_do_not_touch_the_token() {
    let h = headers(&[("authorization", "Bearer a b"), ("x-mcp-readonly", "1")]);
    assert_eq!(request_token(&h, "fallback"), "a b");
}

#[test]
fn bearer_of_texts() {
    assert_eq!(bearer_token("Bearer x"), Some("x".to_string()));
    assert_eq!(bearer_token(" Bearer x"), None);
    assert_eq!(bearer_token("Bearerx y"), None);
    assert_eq!(bearer_token(""), None);
    assert_eq!(token_from(None, ""), "");
    assert_eq!(token_from(Some("bEaReR z".to_string()), "f"), "z");
}
