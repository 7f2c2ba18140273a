use memos_mcp_server::json::Json;
use memos_mcp_server::memos::{ClientError, MemosClient, Method};
use memos_mcp_server::outcome::ToolOutcome;
use memos_mcp_server::params::RenameTagParams;
use memos_mcp_server::rename::{
    apply_tag_rename, patch_for, rename_source, tag_name_of, tag_rename_regex, Renaming,
};
use memos_mcp_server::server::MemosServer;

fn rename(old: &str, new: &str, content: &str) -> String {
    let re = tag_rename_regex(old).expect("test pattern compiles");
    apply_tag_rename(&re, content, new)
}

fn text(s: &str) -> Json {
    Json::Text(s.to_string())
}

fn object(members: Vec<(&str, Json)>) -> Json {
    Json::Object(members.into_iter().map(|(k, v)| (k.to_string(), v)).collect())
}

fn memo(name: &str, content: &str) -> Json {
    object(vec![("name", text(name)), ("content", text(content))])
}

fn params(old_tag: &str, new_tag: &str) -> RenameTagParams {
    RenameTagParams {
        old_tag: old_tag.to_string(),
        new_tag: new_tag.to_string(),
    }
}

fn server() -> MemosServer {
    MemosServer::new("http://m".to_string(), "t".to_string())
}

#[test]
fn rename_simple_and_end_of_string() {
    assert_eq!(rename("rust", "rustlang", "I love #rust"), "I love #rustlang");
    assert_eq!(rename("rust", "rustlang", "#rust"), "#rustlang");
}

#[test]
fn rename_preserves_boundary_char() {
    assert_eq!(
        rename("rust", "rustlang", "#rust, and #rust."),
        "#rustlang, and #rustlang."
    );
    assert_eq!(rename("rust", "rustlang", "#rust\nmore"), "#rustlang\nmore");
    assert_eq!(rename("rust", "rustlang", "(#rust)"), "(#rustlang)");
}

#[test]
fn rename_does_not_match_longer_tag() {
    assert_eq!(rename("e2e-test", "e2e-done", "#e2e-testing"), "#e2e-testing");
    assert_eq!(
        rename("e2e-test", "e2e-done", "#e2e-test #e2e-testing"),
        "#e2e-done #e2e-testing"
    );
}

#[test]
fn rename_keeps_child_segments() {
    assert_eq!(
        rename("parent", "p2", "#parent/child and #parent"),
        "#p2/child and #p2"
    );
    assert_eq!(
        rename("parent/child", "parent/kid", "#parent/child/grand"),
        "#parent/kid/grand"
    );
}

#[test]
fn rename_multiple_occurrences() {
    assert_eq!(rename("a", "b", "#a #a! #a?"), "#b #b! #b?");
}

#[test]
fn rename_escapes_regex_meta_in_old_tag() {
    assert_eq!(rename("a.b", "c", "#a.b x"), "#c x");
    assert_eq!(rename("a.b", "c", "#axb"), "#axb");
}

#[test]
fn rename_escapes_every_meta_character() {
    for c in "\\.+*?()|[]{}^$#&-~ %\"/@<>".chars() {
        let old: String = format!("x{}y", c);
        assert_eq!(rename(&old, "z", &format!("#{} end", old)), "#z end");
    }
}

#[test]
fn rename_knows_letters_beyond_ascii() {
    assert_eq!(rename("caf\u{e9}", "bar", "#caf\u{e9}!"), "#bar!");
    assert_eq!(rename("caf", "bar", "#caf\u{e9}"), "#caf\u{e9}");
}

#[test]
fn rename_pattern_that_is_too_large() {
    let long: String = "ab".repeat(2_000_000);
    assert!(tag_rename_regex(&long).is_err());
    let (renaming, _) = server()
        .tag_rename_tag(params(&long, "short"))
        .expect("names are accepted");
    match server().tag_rename_changes(&renaming, Ok(vec![])) {
        Err(ToolOutcome::Failure(s)) => assert!(s.starts_with("bad tag pattern: ")),
        other => panic!("{:?}", other.is_ok()),
    }
}

#[test]
fn names_of_tags() {
    assert_eq!(tag_name_of(" ##rust "), "rust");
    assert_eq!(tag_name_of("rust"), "rust");
    assert_eq!(tag_name_of("# rust"), " rust");
    assert_eq!(tag_name_of("#"), "");
}

#[test]
fn renaming_refuses_empty_and_equal_names() {
    for (a, b) in [("", "x"), ("x", " "), ("#", "x"), ("", "")] {
        assert_eq!(
            server().tag_rename_tag(params(a, b)).err(),
            Some(ToolOutcome::Failure(
                "old_tag and new_tag must be non-empty".to_string()
            ))
        );
    }
    assert_eq!(
        server().tag_rename_tag(params("#x", " x ")).err(),
        Some(ToolOutcome::Failure(
            "old_tag and new_tag are identical".to_string()
        ))
    );
    assert_eq!(
        Renaming::start("a", "#a").err(),
        Some("old_tag and new_tag are identical".to_string())
    );
}

#[test]
fn renaming_lists_by_the_old_tag() {
    let s = server();
    let (renaming, paging) = s
        .tag_rename_tag(params("#say \"hi\"", "new"))
        .expect("names are accepted");
    assert_eq!(renaming.filter(), "tag in [\"say \\\"hi\\\"\"]");
    assert_eq!(
        s.page_request(&paging).query,
        vec![
            ("pageSize".to_string(), "1000".to_string()),
            ("filter".to_string(), "tag in [\"say \\\"hi\\\"\"]".to_string())
        ]
    );
}

#[test]
fn renaming_changes_what_differs() {
    let s = server();
    let (renaming, _) = s
        .tag_rename_tag(params("a", "b"))
        .expect("names are accepted");
    let memos = vec![
        memo("memos/1", "x #a y"),
        memo("memos/2", "nothing here"),
        memo("", "#a"),
        object(vec![("content", text("#a"))]),
        memo("memos/3", "#a/c"),
        object(vec![("name", text("memos/4"))]),
    ];
    let changes = s
        .tag_rename_changes(&renaming, Ok(memos))
        .expect("pattern compiles");
    assert_eq!(changes.matched, 6);
    assert_eq!(changes.patches.len(), 2);
    let first = &changes.patches[0];
    assert_eq!(first.name, "memos/1");
    assert_eq!(first.request.method, Method::Patch);
    assert_eq!(first.request.url, "http://m/api/v1/memos/1");
    assert_eq!(first.request.bearer, Some("t".to_string()));
    assert_eq!(
        first.request.query,
        vec![("updateMask".to_string(), "content".to_string())]
    );
    assert_eq!(
        first.request.body,
        Some(object(vec![("content", text("x #b y"))]))
    );
    assert_eq!(changes.patches[1].name, "memos/3");
    assert_eq!(
        changes.patches[1].request.body,
        Some(object(vec![("content", text("#b/c"))]))
    );
}

#[test]
fn renaming_stops_where_memos_cannot_be_read() {
    let s = server();
    let (renaming, _) = s
        .tag_rename_tag(params("a", "b"))
        .expect("names are accepted");
    assert_eq!(
        s.tag_rename_changes(&renaming, Err(ClientError::Read("cut".to_string())))
            .err(),
        Some(ToolOutcome::Failure(
            "memos api error: read memos response: cut".to_string()
        ))
    );
}

#[test]
fn patches_for_given_rewrites() {
    let client = MemosClient::new("http://m".to_string(), String::new());
    assert!(patch_for(&client, &memo("memos/1", "a"), "a").is_none());
    assert!(patch_for(&client, &memo("", "a"), "b").is_none());
    let p = patch_for(&client, &memo("memos/1", "a"), "b").expect("patch");
    assert_eq!(p.name, "memos/1");
    assert_eq!(p.request.url, "http://m/api/v1/memos/1");
    assert_eq!(p.request.body, Some(object(vec![("content", text("b"))])));
}

#[test]
fn plan_with_a_given_matcher() {
    let client = MemosClient::new("http://m".to_string(), String::new());
    let renaming = Renaming::start("a", "b").expect("renaming");
    assert_eq!(
        renaming
            .plan_with(&client, Err("too big".to_string()), &[])
            .err(),
        Some("bad tag pattern: too big".to_string())
    );
    let planned = renaming
        .plan_with(&client, tag_rename_regex("other"), &[memo("memos/1", "#other #a")])
        .expect("plan");
    assert_eq!(
        planned[0].request.body,
        Some(object(vec![("content", text("#b #a"))]))
    );
}

#[test]
fn reports_account_for_every_change() {
    let s = server();
    let (renaming, _) = s
        .tag_rename_tag(params("a", "b"))
        .expect("names are accepted");
    let sent = vec![
        ("memos/1".to_string(), Ok(Json::Null)),
        (
            "memos/2".to_string(),
            Err(ClientError::Status("403 403 Forbidden: no".to_string())),
        ),
        ("memos/3".to_string(), Ok(text("x"))),
        ("memos/4".to_string(), Err(ClientError::Send("down".to_string()))),
    ];
    let number = |n: &str| Json::Number(n.to_string());
    assert_eq!(
        s.tag_rename_report(&renaming, 12, &sent),
        ToolOutcome::Structured(object(vec![
            ("renamed_from", text("a")),
            ("renamed_to", text("b")),
            ("memos_matched", number("12")),
            ("memos_updated", number("2")),
            (
                "failures",
                Json::Array(vec![
                    text("memos/2: 403 403 Forbidden: no"),
                    text("memos/4: memos request failed: down")
                ])
            ),
        ]))
    );
}

#[test]
fn plain_filters() {
    let renaming = Renaming::start("a/b", "c").expect("renaming");
    assert_eq!(renaming.filter(), "tag in [\"a/b\"]");
}

#[test]
fn sources_of_matchers() {
    assert_eq!(
        rename_source("a.b/c"),
        r"#a\.b/c((?:/[\w\-]+)*)([^\w\-/]|$)"
    );
}

#[test]
fn rename_takes_dollars_literally() {
    assert_eq!(rename("x", "a$", "#x/child end"), "#a$/child end");
    assert_eq!(rename("x", "a$b", "#x!"), "#a$b!");
    assert_eq!(rename("x", "$1", "#x/c #x"), "#$1/c #$1");
    assert_eq!(rename("x", "${2}$$", "#x"), "#${2}$$");
}
