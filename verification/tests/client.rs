use memos_mcp_server::json::Json;
use memos_mcp_server::memos::{
    bare_id, opt_query, read_reply, read_reply_with, ClientError, MemosClient, Method,
};
use memos_mcp_server::outcome::{acknowledge, api_fail, ok_json, Answer, ToolOutcome};

fn text(s: &str) -> Json {
    Json::Text(s.to_string())
}

fn object(members: Vec<(&str, Json)>) -> Json {
    Json::Object(members.into_iter().map(|(k, v)| (k.to_string(), v)).collect())
}

fn status_error(r: Result<Json, ClientError>) -> String {
    match r {
        Err(ClientError::Status(s)) => s,
        other => panic!("{:?}", other),
    }
}

#[test]
fn ids_of_names() {
    assert_eq!(bare_id("memos/abc123"), "abc123");
    assert_eq!(bare_id("abc123"), "abc123");
    assert_eq!(bare_id(" memos/ abc "), "abc");
    assert_eq!(bare_id("a/b/c"), "c");
    assert_eq!(bare_id("memos/"), "");
    assert_eq!(bare_id(&bare_id("x/ y ")), "y");
}

#[test]
fn queries_leave_out_what_is_empty() {
    let q = opt_query(vec![
        ("a", Some("1".to_string())),
        ("b", None),
        ("c", Some(String::new())),
        ("d", Some(" ".to_string())),
    ]);
    assert_eq!(
        q,
        vec![
            ("a".to_string(), "1".to_string()),
            ("d".to_string(), " ".to_string())
        ]
    );
}

#[test]
fn requests_carry_token_and_parts() {
    let client = MemosClient::new("http://m//".to_string(), "tok".to_string());
    assert_eq!(client.url("/x"), "http://m/x");
    let r = client.patch_q(
        "/api",
        vec![("k".to_string(), "v".to_string())],
        text("body"),
    );
    assert_eq!(r.method, Method::Patch);
    assert_eq!(r.url, "http://m/api");
    assert_eq!(r.bearer, Some("tok".to_string()));
    assert_eq!(r.query, vec![("k".to_string(), "v".to_string())]);
    assert_eq!(r.body, Some(text("body")));
}

#[test]
fn requests_without_token_or_body() {
    let client = MemosClient::new("http://m".to_string(), String::new());
    let r = client.delete("/x");
    assert_eq!(r.method, Method::Delete);
    assert_eq!(r.bearer, None);
    assert_eq!(r.body, None);
    assert!(r.query.is_empty());
    assert_eq!(client.get("/x", vec![]).method, Method::Get);
    assert_eq!(client.post("/x", Json::Null).body, Some(Json::Null));
    assert_eq!(client.post("/x", Json::Null).method, Method::Post);
    assert_eq!(client.patch("/x", Json::Null).method, Method::Patch);
}

#[test]
fn success_gives_the_value() {
    assert_eq!(read_reply(200, b"7", Ok(Json::Number("7".to_string()))), Ok(Json::Number("7".to_string())));
    assert_eq!(read_reply(299, b"x", Ok(text("x"))), Ok(text("x")));
}

#[test]
fn blank_bodies_are_null() {
    assert_eq!(read_reply(200, b"", Err("eof".to_string())), Ok(Json::Null));
    assert_eq!(read_reply(204, b" \r\n\t\x0c", Err("eof".to_string())), Ok(Json::Null));
    assert_eq!(
        read_reply(200, b"\x0b", Err("bad".to_string())),
        Err(ClientError::Decode("bad".to_string()))
    );
}

#[test]
fn decode_errors_come_before_the_status() {
    assert_eq!(
        read_reply(502, b"<html>", Err("expected value".to_string())),
        Err(ClientError::Decode("expected value".to_string()))
    );
}

#[test]
fn status_errors_say_what_they_can() {
    assert_eq!(
        status_error(read_reply(404, b"", Err(String::new()))),
        "404 404 Not Found: Not Found"
    );
    assert_eq!(
        status_error(read_reply(
            400,
            b"{}",
            Ok(object(vec![("error", text("e")), ("message", text("m"))]))
        )),
        "400 400 Bad Request: m"
    );
    assert_eq!(
        status_error(read_reply(
            401,
            b"{}",
            Ok(object(vec![("error", text("e")), ("message", Json::Bool(true))]))
        )),
        "401 401 Unauthorized: e"
    );
    assert_eq!(
        status_error(read_reply(599, b"[]", Ok(Json::Array(vec![])))),
        "599 599 <unknown status code>: error"
    );
    assert_eq!(
        status_error(read_reply(302, b"", Ok(Json::Null))),
        "302 302 Found: Found"
    );
}

#[test]
fn status_errors_with_given_reasons() {
    assert_eq!(
        status_error(read_reply_with(
            500,
            Some("Broken".to_string()),
            b"{}",
            Ok(object(vec![]))
        )),
        "500 500 Broken: Broken"
    );
    assert_eq!(
        status_error(read_reply_with(
            500,
            None,
            b"{}",
            Ok(object(vec![("message", text(""))]))
        )),
        "500 500 <unknown status code>: "
    );
}

#[test]
fn error_messages() {
    let s = || "cause".to_string();
    assert_eq!(ClientError::Send(s()).message(), "memos request failed: cause");
    assert_eq!(ClientError::Read(s()).message(), "read memos response: cause");
    assert_eq!(
        ClientError::Decode(s()).message(),
        "decode memos JSON response: cause"
    );
    assert_eq!(ClientError::Status(s()).message(), "cause");
}

#[test]
fn outcomes_of_replies() {
    let ok = object(vec![("ok", Json::Bool(true))]);
    assert_eq!(acknowledge(), ok);
    assert_eq!(Answer::Value.finish(Ok(Json::Null)), ok_json(Json::Null));
    assert_eq!(
        Answer::Acknowledge.finish(Ok(text("x"))),
        ToolOutcome::Structured(acknowledge())
    );
    assert_eq!(
        Answer::ValueOrAcknowledge.finish(Ok(Json::Null)),
        ToolOutcome::Structured(ok)
    );
    assert_eq!(
        Answer::ValueOrAcknowledge.finish(Ok(text("x"))),
        ok_json(text("x"))
    );
    let fail = ToolOutcome::Failure("memos api error: memos request failed: down".to_string());
    assert_eq!(api_fail(ClientError::Send("down".to_string())), fail);
    assert_eq!(
        Answer::Acknowledge.finish(Err(ClientError::Send("down".to_string()))),
        fail
    );
}

#[test]
fn json_members_and_items() {
    let j = object(vec![
        ("a", text("x")),
        ("a", text("second")),
        ("list", Json::Array(vec![text("p"), Json::Null, text("q")])),
    ]);
    assert_eq!(j.text_at("a"), Some("x"));
    assert_eq!(j.text_at("list"), None);
    assert_eq!(j.text_or_empty("missing"), "");
    assert!(!j.flag("a"));
    assert_eq!(j.texts_at("list"), vec!["p".to_string(), "q".to_string()]);
    assert!(j.texts_at("a").is_empty());
    assert_eq!(j.take_array("list"), vec![text("p"), Json::Null, text("q")]);
    assert_eq!(text("x").take_array("list"), vec![]);
}
