use memos_mcp_server::json::Json;
use memos_mcp_server::memos::{ClientError, MemosClient, Method};
use memos_mcp_server::outcome::ToolOutcome;
use memos_mcp_server::paging::Paging;
use memos_mcp_server::params::ListTagsParams;
use memos_mcp_server::server::MemosServer;
use memos_mcp_server::tags::{key_of, tag_listing, tags_of, text_before};

fn text(s: &str) -> Json {
    Json::Text(s.to_string())
}

fn object(members: Vec<(&str, Json)>) -> Json {
    Json::Object(members.into_iter().map(|(k, v)| (k.to_string(), v)).collect())
}

fn memo(tags: &[&str]) -> Json {
    object(vec![(
        "tags",
        Json::Array(tags.iter().map(|t| text(t)).collect()),
    )])
}

fn memos() -> Vec<Json> {
    vec![
        memo(&["work", "work/rust", "home"]),
        memo(&["work/rust/verus", "work/go"]),
        object(vec![("tags", text("not a list"))]),
        object(vec![]),
        memo(&["home", "b"]),
    ]
}

fn rows(parent: Option<&str>, recursive: bool) -> Vec<(String, usize, bool)> {
    let tags = tags_of(&memos());
    tag_listing(&tags, &parent.map(|p| p.to_string()), recursive)
        .into_iter()
        .map(|r| (r.name, r.count, r.has_children))
        .collect()
}

fn row(name: &str, count: usize, has_children: bool) -> (String, usize, bool) {
    (name.to_string(), count, has_children)
}

#[test]
fn top_level_tags() {
    assert_eq!(
        rows(None, false),
        vec![row("work", 4, true), row("home", 2, false), row("b", 1, false)]
    );
}

#[test]
fn every_tag_when_recursive() {
    assert_eq!(
        rows(None, true),
        vec![
            row("home", 2, false),
            row("b", 1, false),
            row("work", 1, true),
            row("work/go", 1, false),
            row("work/rust", 1, true),
            row("work/rust/verus", 1, false),
        ]
    );
}

#[test]
fn children_of_a_parent() {
    assert_eq!(
        rows(Some("work"), false),
        vec![row("work/rust", 2, true), row("work/go", 1, false)]
    );
    assert_eq!(
        rows(Some("work"), true),
        vec![
            row("work/go", 1, false),
            row("work/rust", 1, true),
            row("work/rust/verus", 1, false)
        ]
    );
    assert_eq!(rows(Some("home"), false), vec![]);
    assert_eq!(rows(Some("wor"), false), vec![]);
}

#[test]
fn counts_add_up() {
    let total: usize = rows(None, false).iter().map(|r| r.1).sum();
    assert_eq!(total, tags_of(&memos()).len());
    assert_eq!(total, 7);
}

#[test]
fn keys_of_tags() {
    let parent = Some("a".to_string());
    assert_eq!(key_of("a/b/c", &None, false), Some("a".to_string()));
    assert_eq!(key_of("a/b/c", &None, true), Some("a/b/c".to_string()));
    assert_eq!(key_of("a/b/c", &parent, false), Some("a/b".to_string()));
    assert_eq!(key_of("a/b/c", &parent, true), Some("a/b/c".to_string()));
    assert_eq!(key_of("a", &parent, true), None);
    assert_eq!(key_of("ab/c", &parent, true), None);
    assert_eq!(key_of("a//c", &parent, false), Some("a/".to_string()));
    assert_eq!(key_of("/x", &None, false), Some(String::new()));
}

#[test]
fn names_are_ordered_as_texts() {
    let names = ["", "a", "a/b", "ab", "b", "\u{e9}", "\u{ffff}", "\u{10000}"];
    for i in 0..names.len() {
        for j in 0..names.len() {
            assert_eq!(text_before(names[i], names[j]), names[i] < names[j]);
            assert_eq!(text_before(names[i], names[j]), i < j);
        }
    }
}

#[test]
fn listing_as_json() {
    let server = MemosServer::new("http://m".to_string(), String::new());
    let p = ListTagsParams {
        parent: None,
        recursive: None,
    };
    let entry = |name: &str, count: &str, children: bool| {
        let mut m = vec![
            ("name", text(name)),
            ("count", Json::Number(count.to_string())),
        ];
        if children {
            m.push(("hasChildren", Json::Bool(true)));
        }
        object(m)
    };
    assert_eq!(
        server.tag_list_tags(p, Ok(memos())),
        ToolOutcome::Structured(object(vec![(
            "tags",
            Json::Array(vec![
                entry("work", "4", true),
                entry("home", "2", false),
                entry("b", "1", false)
            ])
        )]))
    );
}

#[test]
fn listing_without_memos() {
    let server = MemosServer::new("http://m".to_string(), String::new());
    let p = || ListTagsParams {
        parent: Some("x".to_string()),
        recursive: Some(true),
    };
    assert_eq!(
        server.tag_list_tags(p(), Ok(vec![])),
        ToolOutcome::Structured(object(vec![("tags", Json::Array(vec![]))]))
    );
    assert_eq!(
        server.tag_list_tags(p(), Err(ClientError::Status("500".to_string()))),
        ToolOutcome::Failure("memos api error: 500".to_string())
    );
}

#[test]
fn pages_are_followed_to_the_end() {
    let client = MemosClient::new("http://m".to_string(), "t".to_string());
    let mut paging = Paging::start(Some("f".to_string()));
    let first = paging.request(&client);
    assert_eq!(first.method, Method::Get);
    assert_eq!(first.url, "http://m/api/v1/memos");
    assert_eq!(
        first.query,
        vec![
            ("pageSize".to_string(), "1000".to_string()),
            ("filter".to_string(), "f".to_string())
        ]
    );
    assert!(paging.accept(object(vec![
        ("memos", Json::Array(vec![text("a"), text("b")])),
        ("nextPageToken", text("p2"))
    ])));
    assert_eq!(
        paging.request(&client).query,
        vec![
            ("pageSize".to_string(), "1000".to_string()),
            ("pageToken".to_string(), "p2".to_string()),
            ("filter".to_string(), "f".to_string())
        ]
    );
    assert!(paging.accept(object(vec![("nextPageToken", text("p3"))])));
    assert!(!paging.accept(object(vec![
        ("memos", Json::Array(vec![text("c")])),
        ("nextPageToken", text(""))
    ])));
    assert_eq!(paging.into_memos(), vec![text("a"), text("b"), text("c")]);
}

#[test]
fn pages_without_token_or_memos_end() {
    let server = MemosServer::new("http://m".to_string(), String::new());
    let mut paging = server.all_memos(None);
    assert_eq!(
        server.page_request(&paging).query,
        vec![("pageSize".to_string(), "1000".to_string())]
    );
    assert!(!paging.accept(Json::Null));
    assert!(paging.into_memos().is_empty());
    let mut paging = server.all_memos(None);
    assert!(!paging.accept(object(vec![
        ("memos", text("no list")),
        ("nextPageToken", Json::Number("2".to_string()))
    ])));
    assert!(paging.into_memos().is_empty());
}

#[test]
fn tags_of_pages_are_joined() {
    let mut both = tags_of(&memos()[..2]);
    both.append(&mut tags_of(&memos()[2..]));
    assert_eq!(both, tags_of(&memos()));
}
