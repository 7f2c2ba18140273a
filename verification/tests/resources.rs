use memos_mcp_server::json::Json;
use memos_mcp_server::memos::{ClientError, Method};
use memos_mcp_server::params::{CaptureArgs, DigestArgs, RelationGraphArgs};
use memos_mcp_server::prompts::{find_prompt, PROMPT_DEFS};
use memos_mcp_server::resources::{memo_markdown, memo_resource, ResourceRead, TextResource};
use memos_mcp_server::server::MemosServer;

fn text(s: &str) -> Json {
    Json::Text(s.to_string())
}

fn object(members: Vec<(&str, Json)>) -> Json {
    Json::Object(members.into_iter().map(|(k, v)| (k.to_string(), v)).collect())
}

fn server() -> MemosServer {
    MemosServer::new("http://m/".to_string(), String::new())
}

fn invalid(uri: &str) -> String {
    match server().read_memo_resource(uri) {
        ResourceRead::Invalid(s) => s,
        other => panic!("{:?}", other),
    }
}

#[test]
fn memo_markdown_derives_uid_from_name() {
    let memo = object(vec![
        ("name", text("memos/abc123")),
        ("content", text("hello #x")),
        ("visibility", text("PRIVATE")),
        ("createTime", text("2026-01-01T00:00:00Z")),
        ("updateTime", text("2026-01-02T00:00:00Z")),
        ("tags", Json::Array(vec![text("x")])),
    ]);
    let md = memo_markdown(&memo);
    assert!(md.contains("uid: abc123"), "uid missing: {}", md);
    assert!(md.contains("hello #x"));
}

#[test]
fn memo_markdown_in_full() {
    let memo = object(vec![
        ("name", text("memos/abc")),
        ("content", text("a\nb")),
        ("visibility", text("PUBLIC")),
        ("createTime", text("c")),
        ("updateTime", text("u")),
        ("pinned", Json::Bool(true)),
        ("tags", Json::Array(vec![text("x"), Json::Null, text("y/z")])),
    ]);
    assert_eq!(
        memo_markdown(&memo),
        "---\nuid: abc\nvisibility: PUBLIC\npinned: true\ncreated: c\nupdated: u\ntags: [x, y/z]\n---\n\na\nb"
    );
}

#[test]
fn memo_markdown_of_nothing() {
    let empty = "---\nuid: \nvisibility: \ncreated: \nupdated: \n---\n\n";
    assert_eq!(memo_markdown(&Json::Null), empty);
    assert_eq!(
        memo_markdown(&object(vec![
            ("pinned", text("true")),
            ("tags", Json::Array(vec![text("")])),
        ])),
        empty
    );
}

#[test]
fn listed_resources() {
    let list = server().list_memo_resources();
    assert_eq!(list.len(), 4);
    assert_eq!(list[1].uri, "memo://prompts/digest");
    assert_eq!(list[1].name, "prompt-digest");
    assert_eq!(
        list[1].description,
        "Prompt: Summarize memo activity for a time period"
    );
    assert_eq!(list[1].mime_type, "text/markdown");
    let templates = server().list_memo_resource_templates();
    assert_eq!(templates.len(), 1);
    assert_eq!(templates[0].uri, "memo://memos/{uid}");
    assert_eq!(templates[0].name, "memo");
    assert_eq!(templates[0].description, "A memo by its UID");
}

#[test]
fn listed_resources_are_readable() {
    for (i, r) in server().list_memo_resources().iter().enumerate() {
        assert_eq!(
            server().read_memo_resource(&r.uri),
            ResourceRead::Text(TextResource {
                uri: r.uri.to_string(),
                text: PROMPT_DEFS[i].2.to_string(),
                mime_type: "text/markdown".to_string(),
            })
        );
    }
}

#[test]
fn memos_are_fetched() {
    for uri in ["memo://memos/abc", "memo://memos//abc/"] {
        match server().read_memo_resource(uri) {
            ResourceRead::Fetch(r) => {
                assert_eq!(r.method, Method::Get);
                assert_eq!(r.url, "http://m/api/v1/memos/abc");
                assert!(r.query.is_empty());
                assert_eq!(r.body, None);
            }
            other => panic!("{:?}", other),
        }
    }
}

#[test]
fn unknown_resources_are_refused() {
    assert_eq!(invalid("memo://prompts/review"), "unknown prompt: review");
    assert_eq!(invalid("memo://prompts/"), "unknown prompt: ");
    assert_eq!(invalid("memo://memos/"), "invalid memo URI: missing UID");
    assert_eq!(invalid("memo://memos/a/b"), "invalid memo URI: missing UID");
    assert_eq!(invalid("memo://other"), "unknown resource: memo://other");
    assert_eq!(invalid(""), "unknown resource: ");
}

#[test]
fn fetched_memos_become_texts() {
    let memo = object(vec![("name", text("memos/abc")), ("content", text("hi"))]);
    let got = memo_resource("memo://memos/abc", Ok(memo)).expect("text");
    assert_eq!(got.uri, "memo://memos/abc");
    assert_eq!(got.mime_type, "text/markdown");
    assert!(got.text.ends_with("---\n\nhi"));
    assert_eq!(
        memo_resource(
            "memo://memos/abc",
            Err(ClientError::Status("404 404 Not Found: x".to_string()))
        ),
        Err("memos api error: 404 404 Not Found: x".to_string())
    );
}

#[test]
fn prompts_by_name() {
    assert_eq!(find_prompt("capture"), Some(PROMPT_DEFS[0].2));
    assert_eq!(find_prompt("relation_graph"), Some(PROMPT_DEFS[3].2));
    assert_eq!(find_prompt("on_this_day"), None);
}

#[test]
fn capture_prompt() {
    let plain = CaptureArgs {
        content: "note".to_string(),
        tags: Some("  ".to_string()),
        visibility: None,
    };
    assert_eq!(
        server().capture(plain),
        "Create a memo with the following content using the memo_create_memo tool. Visibility: PRIVATE.\n\nContent:\nnote"
    );
    let tagged = CaptureArgs {
        content: "note".to_string(),
        tags: Some("a, #b,".to_string()),
        visibility: Some("PUBLIC".to_string()),
    };
    assert_eq!(
        server().capture(tagged),
        "Create a memo with the following content using the memo_create_memo tool. Visibility: PUBLIC.\n\nContent:\nnote\n\n#a #b #"
    );
}

#[test]
fn digest_prompt() {
    let days = |period: Option<&str>| {
        let s = server().digest(DigestArgs {
            period: period.map(|p| p.to_string()),
        });
        let rest = s
            .strip_prefix("Create a digest of my memo activity for the past ")
            .expect("start")
            .to_string();
        assert!(rest.ends_with(" days:\n1. Call memo_list_memos with a filter on created_ts to get recent memos\n2. Call tag_list_tags to see tag usage patterns\n3. Summarize total memos, key themes, and trends as a concise briefing"));
        rest.split(' ').next().expect("number").to_string()
    };
    assert_eq!(days(None), "7");
    assert_eq!(days(Some("week")), "7");
    assert_eq!(days(Some("today")), "1");
    assert_eq!(days(Some("month")), "30");
    assert_eq!(days(Some("year")), "7");
}

#[test]
fn other_prompts() {
    assert_eq!(server().tag_overview(), PROMPT_DEFS[2].2);
    assert_eq!(
        server().relation_graph(RelationGraphArgs {
            memo: "memos/x".to_string()
        }),
        "Explore the relation graph starting from memo memos/x:\n1. Call memo_get_memo to show the starting memo's content\n2. Call memo_list_memo_relations with the memo id to get relations\n3. For each connected memo, call memo_get_memo to understand its content\n4. Present a text-based visualization of the graph plus theme analysis"
    );
}
