use memos_mcp_server::catalog::CURATED_TOOLS;
use memos_mcp_server::json::Json;
use memos_mcp_server::memos::Method;
use memos_mcp_server::outcome::{Answer, Call, ToolOutcome};
use memos_mcp_server::params::{
    AttachmentRef, CreateAttachmentParams, CreateMemoCommentParams, CreateMemoParams,
    DeleteMemoReactionParams, EmptyParams, ListAttachmentsParams, ListMemosParams, MemoPageParams,
    MemoRef, SetMemoAttachmentsParams, SetMemoRelationsParams, ShortcutParams, UpdateMemoParams,
    UpsertMemoReactionParams,
};
use memos_mcp_server::server::{guess_mime, MemosServer};

fn server() -> MemosServer {
    MemosServer::new("http://m".to_string(), "t".to_string())
}

fn s(t: &str) -> String {
    t.to_string()
}

fn some(t: &str) -> Option<String> {
    Some(t.to_string())
}

fn text(t: &str) -> Json {
    Json::Text(t.to_string())
}

fn object(members: Vec<(&str, Json)>) -> Json {
    Json::Object(members.into_iter().map(|(k, v)| (k.to_string(), v)).collect())
}

fn query(pairs: &[(&str, &str)]) -> Vec<(String, String)> {
    pairs.iter().map(|(k, v)| (s(k), s(v))).collect()
}

fn memo(name: &str) -> MemoRef {
    MemoRef { memo: s(name) }
}

fn check(call: Call, method: Method, url: &str, pairs: &[(&str, &str)], body: Option<Json>, answer: Answer) {
    assert_eq!(call.request.method, method);
    assert_eq!(call.request.url, format!("http://m{}", url));
    assert_eq!(call.request.bearer, some("t"));
    assert_eq!(call.request.query, query(pairs));
    assert_eq!(call.request.body, body);
    assert_eq!(call.answer, answer);
}

fn no_update() -> UpdateMemoParams {
    UpdateMemoParams {
        memo: s("memos/a"),
        content: None,
        visibility: None,
        pinned: None,
        state: None,
        create_time: None,
        update_time: None,
    }
}

#[test]
fn list_memos() {
    let call = server().memo_list_memos(ListMemosParams {
        page_size: Some(-5),
        page_token: some(""),
        state: some("NORMAL"),
        order_by: None,
        filter: some("x"),
        show_deleted: Some(false),
    });
    check(
        call,
        Method::Get,
        "/api/v1/memos",
        &[("pageSize", "-5"), ("state", "NORMAL"), ("filter", "x"), ("showDeleted", "false")],
        None,
        Answer::Value,
    );
}

#[test]
fn create_memo() {
    let call = server().memo_create_memo(CreateMemoParams {
        content: s("c"),
        memo_id: some("my-id"),
        visibility: some("PUBLIC"),
        pinned: Some(true),
        create_time: some("now"),
    });
    let body = object(vec![
        ("content", text("c")),
        ("visibility", text("PUBLIC")),
        ("pinned", Json::Bool(true)),
        ("createTime", text("now")),
    ]);
    check(call, Method::Post, "/api/v1/memos", &[("memoId", "my-id")], Some(body), Answer::Value);
    let call = server().memo_create_memo(CreateMemoParams {
        content: s(""),
        memo_id: None,
        visibility: None,
        pinned: None,
        create_time: None,
    });
    let body = object(vec![("content", text(""))]);
    check(call, Method::Post, "/api/v1/memos", &[], Some(body), Answer::Value);
}

#[test]
fn get_and_delete_memo() {
    check(server().memo_get_memo(memo("memos/a")), Method::Get, "/api/v1/memos/a", &[], None, Answer::Value);
    check(server().memo_delete_memo(memo("a")), Method::Delete, "/api/v1/memos/a", &[], None, Answer::Acknowledge);
}

#[test]
fn update_memo_masks_what_is_set() {
    let call = server()
        .memo_update_memo(UpdateMemoParams {
            content: some("c"),
            visibility: some("PRIVATE"),
            pinned: Some(false),
            state: some("ARCHIVED"),
            create_time: some("t1"),
            update_time: some("t2"),
            ..no_update()
        })
        .expect("call");
    let body = object(vec![
        ("content", text("c")),
        ("visibility", text("PRIVATE")),
        ("pinned", Json::Bool(false)),
        ("state", text("ARCHIVED")),
        ("createTime", text("t1")),
        ("updateTime", text("t2")),
    ]);
    check(
        call,
        Method::Patch,
        "/api/v1/memos/a",
        &[("updateMask", "content,visibility,pinned,state,create_time,update_time")],
        Some(body),
        Answer::Value,
    );
    let call = server()
        .memo_update_memo(UpdateMemoParams { pinned: Some(true), update_time: some(""), ..no_update() })
        .expect("call");
    check(
        call,
        Method::Patch,
        "/api/v1/memos/a",
        &[("updateMask", "pinned,update_time")],
        Some(object(vec![("pinned", Json::Bool(true)), ("updateTime", text(""))])),
        Answer::Value,
    );
}

#[test]
fn update_memo_needs_a_field() {
    assert_eq!(
        server().memo_update_memo(no_update()),
        Err(ToolOutcome::Failure(s(
            "at least one of content/visibility/pinned/state/create_time/update_time must be set"
        )))
    );
}

#[test]
fn memo_comments() {
    let call = server().memo_list_memo_comments(MemoPageParams {
        memo: s("memos/a"),
        page_size: Some(10),
        page_token: some("p"),
        order_by: some("create_time desc"),
    });
    check(
        call,
        Method::Get,
        "/api/v1/memos/a/comments",
        &[("pageSize", "10"), ("pageToken", "p"), ("orderBy", "create_time desc")],
        None,
        Answer::Value,
    );
    let call = server().memo_create_memo_comment(CreateMemoCommentParams {
        memo: s("a"),
        content: s("c"),
        comment_id: some("cid"),
    });
    check(
        call,
        Method::Post,
        "/api/v1/memos/a/comments",
        &[("commentId", "cid")],
        Some(object(vec![("content", text("c"))])),
        Answer::Value,
    );
}

#[test]
fn memo_attachments() {
    check(
        server().memo_list_memo_attachments(memo("a")),
        Method::Get,
        "/api/v1/memos/a/attachments",
        &[],
        None,
        Answer::Value,
    );
    let full = || object(vec![("name", text("attachments/z")), ("type", text("image/png"))]);
    let call = server().memo_set_memo_attachments(SetMemoAttachmentsParams {
        memo: s("memos/a"),
        attachments: vec![text("attachments/x"), full(), text(" y ")],
    });
    let body = object(vec![
        ("name", text("memos/a")),
        (
            "attachments",
            Json::Array(vec![
                object(vec![("name", text("attachments/x"))]),
                full(),
                object(vec![("name", text("attachments/y"))]),
            ]),
        ),
    ]);
    check(call, Method::Patch, "/api/v1/memos/a/attachments", &[], Some(body), Answer::ValueOrAcknowledge);
}

#[test]
fn memo_reactions() {
    check(
        server().memo_list_memo_reactions(memo("a")),
        Method::Get,
        "/api/v1/memos/a/reactions",
        &[],
        None,
        Answer::Value,
    );
    let call = server().memo_upsert_memo_reaction(UpsertMemoReactionParams {
        memo: s("a"),
        reaction_type: s("\u{1f44d}"),
    });
    let body = object(vec![(
        "reaction",
        object(vec![("contentId", text("memos/a")), ("reactionType", text("\u{1f44d}"))]),
    )]);
    check(call, Method::Post, "/api/v1/memos/a/reactions", &[], Some(body), Answer::Value);
    let call = server().memo_delete_memo_reaction(DeleteMemoReactionParams {
        memo: s("memos/a"),
        reaction: s("memos/a/reactions/7"),
    });
    check(call, Method::Delete, "/api/v1/memos/a/reactions/7", &[], None, Answer::Acknowledge);
}

#[test]
fn memo_relations() {
    check(
        server().memo_list_memo_relations(memo("a")),
        Method::Get,
        "/api/v1/memos/a/relations",
        &[],
        None,
        Answer::Value,
    );
    let call = server().memo_set_memo_relations(SetMemoRelationsParams {
        memo: s("a"),
        related: vec![s("memos/b"), s("c")],
    });
    let relation = |to: &str| {
        object(vec![
            ("memo", object(vec![("name", text("memos/a"))])),
            ("relatedMemo", object(vec![("name", text(to))])),
            ("type", text("REFERENCE")),
        ])
    };
    let body = object(vec![
        ("name", text("memos/a")),
        ("relations", Json::Array(vec![relation("memos/b"), relation("memos/c")])),
    ]);
    check(call, Method::Patch, "/api/v1/memos/a/relations", &[], Some(body), Answer::ValueOrAcknowledge);
    let call = server().memo_set_memo_relations(SetMemoRelationsParams { memo: s("a"), related: vec![] });
    assert_eq!(
        call.request.body,
        Some(object(vec![("name", text("memos/a")), ("relations", Json::Array(vec![]))]))
    );
}

#[test]
fn attachments() {
    let call = server().attachment_list_attachments(ListAttachmentsParams {
        page_size: None,
        page_token: some("p"),
        filter: some("f"),
        order_by: some("o"),
    });
    check(
        call,
        Method::Get,
        "/api/v1/attachments",
        &[("pageToken", "p"), ("filter", "f"), ("orderBy", "o")],
        None,
        Answer::Value,
    );
    let one = || AttachmentRef { attachment: s("attachments/x") };
    check(server().attachment_get_attachment(one()), Method::Get, "/api/v1/attachments/x", &[], None, Answer::Value);
    check(
        server().attachment_delete_attachment(one()),
        Method::Delete,
        "/api/v1/attachments/x",
        &[],
        None,
        Answer::Acknowledge,
    );
}

#[test]
fn create_attachment() {
    let call = server().attachment_create_attachment(CreateAttachmentParams {
        filename: s("photo.JPG"),
        mime_type: None,
        content: some("aGk="),
        external_link: None,
        memo: some("a"),
    });
    let body = object(vec![
        ("filename", text("photo.JPG")),
        ("type", text("image/jpeg")),
        ("content", text("aGk=")),
        ("memo", text("memos/a")),
    ]);
    check(call, Method::Post, "/api/v1/attachments", &[], Some(body), Answer::Value);
    let call = server().attachment_create_attachment(CreateAttachmentParams {
        filename: s("x.png"),
        mime_type: some("text/x"),
        content: None,
        external_link: some("https://e.x/y"),
        memo: None,
    });
    let body = object(vec![
        ("filename", text("x.png")),
        ("type", text("text/x")),
        ("externalLink", text("https://e.x/y")),
    ]);
    check(call, Method::Post, "/api/v1/attachments", &[], Some(body), Answer::Value);
}

#[test]
fn mime_types() {
    for (name, mime) in [
        ("a.jpg", "image/jpeg"),
        ("a.JPEG", "image/jpeg"),
        ("a.png", "image/png"),
        ("a.gif", "image/gif"),
        ("a.webp", "image/webp"),
        ("a.svg", "image/svg+xml"),
        ("a.pdf", "application/pdf"),
        ("a.mp3", "audio/mpeg"),
        ("a.Mp4", "video/mp4"),
        ("a.txt", "text/plain"),
        ("a.md", "text/markdown"),
        ("a.json", "application/json"),
        ("a.csv", "text/csv"),
        ("a.tar.zip", "application/zip"),
        ("png", "image/png"),
        ("a.", "application/octet-stream"),
        ("", "application/octet-stream"),
        ("a.g\u{130}f", "application/octet-stream"),
    ] {
        assert_eq!(guess_mime(name), mime);
    }
}

#[test]
fn users() {
    let call = server().shortcut_list_shortcuts(ShortcutParams { user: s("users/7") });
    check(call, Method::Get, "/api/v1/users/7/shortcuts", &[], None, Answer::Value);
    let call = server().auth_get_current_user(EmptyParams::default());
    check(call, Method::Get, "/api/v1/auth/me", &[], None, Answer::Value);
}

#[test]
fn calls_agree_with_the_catalog() {
    let m = || memo("memos/M");
    let a = || AttachmentRef { attachment: s("attachments/A") };
    let page = MemoPageParams { memo: s("M"), page_size: None, page_token: None, order_by: None };
    let listing = ListMemosParams {
        page_size: None,
        page_token: None,
        state: None,
        order_by: None,
        filter: None,
        show_deleted: None,
    };
    let create = CreateMemoParams {
        content: s("c"),
        memo_id: None,
        visibility: None,
        pinned: None,
        create_time: None,
    };
    let update = UpdateMemoParams { memo: s("M"), pinned: Some(true), ..no_update() };
    let comment = CreateMemoCommentParams { memo: s("M"), content: s("c"), comment_id: None };
    let files = ListAttachmentsParams { page_size: None, page_token: None, filter: None, order_by: None };
    let file = CreateAttachmentParams {
        filename: s("f"),
        mime_type: None,
        content: None,
        external_link: None,
        memo: None,
    };
    let v = server();
    let calls = vec![
        v.memo_list_memos(listing),
        v.memo_create_memo(create),
        v.memo_get_memo(m()),
        v.memo_update_memo(update).expect("call"),
        v.memo_delete_memo(m()),
        v.memo_list_memo_comments(page),
        v.memo_create_memo_comment(comment),
        v.memo_list_memo_attachments(m()),
        v.memo_set_memo_attachments(SetMemoAttachmentsParams { memo: s("M"), attachments: vec![] }),
        v.memo_list_memo_reactions(m()),
        v.memo_upsert_memo_reaction(UpsertMemoReactionParams { memo: s("M"), reaction_type: s("+1") }),
        v.memo_delete_memo_reaction(DeleteMemoReactionParams { memo: s("M"), reaction: s("R") }),
        v.memo_list_memo_relations(m()),
        v.memo_set_memo_relations(SetMemoRelationsParams { memo: s("M"), related: vec![] }),
        v.attachment_list_attachments(files),
        v.attachment_create_attachment(file),
        v.attachment_get_attachment(a()),
        v.attachment_delete_attachment(a()),
        v.shortcut_list_shortcuts(ShortcutParams { user: s("U") }),
        v.auth_get_current_user(EmptyParams {}),
    ];
    assert_eq!(calls.len(), 20);
    for (call, row) in calls.iter().zip(CURATED_TOOLS.iter()) {
        let method = match call.request.method {
            Method::Get => "GET",
            Method::Post => "POST",
            Method::Patch => "PATCH",
            Method::Delete => "DELETE",
        };
        let path = row
            .3
            .replace("{memo}", "M")
            .replace("{reaction}", "R")
            .replace("{attachment}", "A")
            .replace("{user}", "U");
        assert_eq!(method, row.2, "{}", row.0);
        assert_eq!(call.request.url, format!("http://m{}", path), "{}", row.0);
        assert_eq!(row.4, call.request.body.is_none() && method == "GET");
    }
}
