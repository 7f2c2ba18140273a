use http::{HeaderMap, HeaderName, HeaderValue};
use memos_mcp_server::catalog::{filter_tools, CURATED_TOOLS};
use memos_mcp_server::filter::{request_filter, split_csv, FilteredServer, ToolFilter};
use memos_mcp_server::server::MemosServer;

const READ_ONLY: [&str; 11] = [
    "memo_list_memos",
    "memo_get_memo",
    "memo_list_memo_comments",
    "memo_list_memo_attachments",
    "memo_list_memo_reactions",
    "memo_list_memo_relations",
    "attachment_list_attachments",
    "attachment_get_attachment",
    "shortcut_list_shortcuts",
    "auth_get_current_user",
    "tag_list_tags",
];

fn list(items: &[&str]) -> Vec<String> {
    items.iter().map(|s| s.to_string()).collect()
}

fn headers(pairs: &[(&str, &str)]) -> HeaderMap {
    let mut h = HeaderMap::new();
    for (k, v) in pairs {
        h.insert(
            k.parse::<HeaderName>().expect("header name"),
            HeaderValue::from_str(v).expect("header value"),
        );
    }
    h
}

fn allowed(filter: &ToolFilter) -> Vec<&'static str> {
    let set = filter.allow_list();
    let names: Vec<&'static str> = CURATED_TOOLS
        .iter()
        .map(|row| row.0)
        .filter(|name| set.contains(name))
        .collect();
    assert_eq!(names.len(), set.len());
    names
}

#[test]
fn catalog_counts() {
    assert_eq!(CURATED_TOOLS.len(), 22);
    assert_eq!(CURATED_TOOLS.iter().filter(|r| r.1 != "-").count(), 20);
    assert_eq!(CURATED_TOOLS.iter().filter(|r| r.4).count(), 11);
    for row in CURATED_TOOLS.iter() {
        assert_eq!(row.4, row.2 == "GET");
    }
}

#[test]
fn unfiltered_catalog_is_everything() {
    let all: Vec<&str> = CURATED_TOOLS.iter().map(|r| r.0).collect();
    assert_eq!(filter_tools(false, &[], &[], &[]), all);
    assert_eq!(allowed(&ToolFilter::default()), all);
}

#[test]
fn readonly_catalog_is_eleven() {
    assert_eq!(filter_tools(true, &[], &[], &[]), READ_ONLY.to_vec());
}

#[test]
fn toolsets_names_and_exclusions() {
    assert_eq!(
        filter_tools(false, &list(&["tags"]), &[], &[]),
        vec!["tag_list_tags", "tag_rename_tag"]
    );
    assert_eq!(
        filter_tools(false, &[], &list(&["tag_rename_tag", "nothing"]), &[]),
        vec!["tag_rename_tag"]
    );
    assert_eq!(
        filter_tools(true, &[], &list(&["tag_rename_tag"]), &[]),
        Vec::<&str>::new()
    );
    assert_eq!(
        filter_tools(
            false,
            &list(&["reactions"]),
            &[],
            &list(&["memo_list_memo_reactions"])
        ),
        vec!["memo_upsert_memo_reaction", "memo_delete_memo_reaction"]
    );
    assert_eq!(
        filter_tools(false, &list(&["unknown"]), &[], &[]),
        Vec::<&str>::new()
    );
    assert_eq!(
        filter_tools(
            false,
            &[],
            &list(&["memo_get_memo"]),
            &list(&["memo_get_memo"])
        ),
        Vec::<&str>::new()
    );
}

#[test]
fn comma_lists() {
    assert_eq!(split_csv(" a, b ,,c "), list(&["a", "b", "c"]));
    assert_eq!(split_csv(""), list(&[]));
    assert_eq!(split_csv(" , ,"), list(&[]));
    assert_eq!(split_csv("\u{3000}x\u{a0}"), list(&["x"]));
}

#[test]
fn headers_make_a_filter() {
    let f = ToolFilter::from_headers(&headers(&[
        ("X-MCP-Readonly", "TRUE"),
        ("X-MCP-Toolsets", "memos, tags"),
        ("X-MCP-Tools", "memo_get_memo,tag_list_tags"),
        ("X-MCP-Exclude-Tools", "tag_list_tags"),
    ]));
    assert!(f.readonly);
    assert_eq!(f.toolsets, list(&["memos", "tags"]));
    assert_eq!(f.only, list(&["memo_get_memo", "tag_list_tags"]));
    assert_eq!(f.exclude, list(&["tag_list_tags"]));
    assert_eq!(allowed(&f), vec!["memo_get_memo"]);
}

#[test]
fn no_headers_no_filter() {
    let f = ToolFilter::from_headers(&headers(&[]));
    assert!(!f.readonly);
    assert!(f.toolsets.is_empty() && f.only.is_empty() && f.exclude.is_empty());
}

#[test]
fn readonly_header_words() {
    for word in ["1", "true", "True", "yes", "YES"] {
        assert!(ToolFilter::from_headers(&headers(&[("x-mcp-readonly", word)])).readonly);
    }
    for word in ["0", "false", "on", " true", ""] {
        assert!(!ToolFilter::from_headers(&headers(&[("x-mcp-readonly", word)])).readonly);
    }
}

#[test]
fn filter_from_header_texts() {
    let f = ToolFilter::from_texts(Some("yes".to_string()), None, None, Some("a,b".to_string()));
    assert!(f.readonly);
    assert_eq!(f.exclude, list(&["a", "b"]));
    assert!(f.toolsets.is_empty());
}

#[test]
fn routes_add_to_the_filter() {
    let f = ToolFilter::default().with_path("/mcp");
    assert!(!f.readonly && f.toolsets.is_empty());
    let f = ToolFilter::default().with_path("/mcp/readonly");
    assert!(f.readonly && f.toolsets.is_empty());
    assert_eq!(allowed(&f), READ_ONLY.to_vec());
    let f = ToolFilter::default().with_path("/mcp/x/tags, reactions/");
    assert!(!f.readonly);
    assert_eq!(f.toolsets, list(&["tags", "reactions"]));
    let f = ToolFilter::default().with_path("/mcp/x/tags/readonly");
    assert!(f.readonly);
    assert_eq!(allowed(&f), vec!["tag_list_tags"]);
    let f = ToolFilter::default().with_path("/mcp/x/readonly");
    assert!(!f.readonly);
    assert_eq!(f.toolsets, list(&["readonly"]));
    let f = ToolFilter::default().with_path("/other/x/tags/readonly");
    assert!(!f.readonly && f.toolsets.is_empty());
    let f = ToolFilter::default().with_path("/mcp/x/tags/writable");
    assert!(!f.readonly && f.toolsets.is_empty());
    let f = ToolFilter::default().with_path("/mcp/x");
    assert!(!f.readonly && f.toolsets.is_empty());
}

#[test]
fn request_filters_need_headers_and_route() {
    let f = request_filter(
        &headers(&[
            ("x-mcp-toolsets", "tags,memos,relations"),
            ("x-mcp-exclude-tools", "tag_rename_tag"),
        ]),
        "/mcp/x/relations,reactions,tags",
    );
    assert_eq!(f.toolsets, list(&["tags", "relations"]));
    assert_eq!(
        allowed(&f),
        vec![
            "memo_list_memo_relations",
            "memo_set_memo_relations",
            "tag_list_tags"
        ]
    );
    let f = request_filter(&headers(&[("x-mcp-toolsets", "tags")]), "/mcp");
    assert_eq!(allowed(&f), vec!["tag_list_tags", "tag_rename_tag"]);
    let f = request_filter(&headers(&[("x-mcp-readonly", "1")]), "/mcp/x/relations");
    assert_eq!(allowed(&f), vec!["memo_list_memo_relations"]);
}

#[test]
fn headers_and_route_without_common_toolset_allow_nothing() {
    for path in ["/mcp/x/memos", "/mcp/x/memos/readonly", "/mcp/x/unknown"] {
        let f = request_filter(&headers(&[("x-mcp-toolsets", "tags")]), path);
        assert_eq!(allowed(&f), Vec::<&str>::new());
        assert!(!f.toolsets.is_empty());
    }
    let twice = ToolFilter::default()
        .with_path("/mcp/x/memos")
        .with_path("/mcp/x/tags")
        .with_path("/mcp/x/tags");
    assert_eq!(allowed(&twice), Vec::<&str>::new());
}

#[test]
fn filtered_server_hides_and_refuses() {
    let server = MemosServer::new("http://m".to_string(), String::new());
    let filter = ToolFilter::default().with_path("/mcp/readonly");
    let filtered = FilteredServer::new(server, &filter);
    assert_eq!(filtered.refuse_call("memo_get_memo"), None);
    assert_eq!(
        filtered.refuse_call("memo_delete_memo"),
        Some("tool 'memo_delete_memo' is not enabled for this endpoint".to_string())
    );
    assert_eq!(
        filtered.refuse_call("no_such_tool"),
        Some("tool 'no_such_tool' is not enabled for this endpoint".to_string())
    );
    let tools: Vec<(String, usize)> = vec![
        ("memo_delete_memo".to_string(), 1),
        ("tag_list_tags".to_string(), 2),
        ("memo_get_memo".to_string(), 3),
    ];
    assert_eq!(filtered.list_tools(tools), vec![2, 3]);
}

#[test]
fn tool_names_differ() {
    for i in 0..CURATED_TOOLS.len() {
        for j in 0..i {
            assert_ne!(CURATED_TOOLS[i].0, CURATED_TOOLS[j].0);
        }
    }
}

#[test]
fn restrictions_leave_fewer_tools() {
    let base = allowed(&ToolFilter::default().with_path("/mcp/x/memos,tags"));
    assert_eq!(base.len(), 11);
    for pair in [
        ("x-mcp-readonly", "yes"),
        ("x-mcp-tools", "memo_get_memo,memo_list_memo_reactions"),
        ("x-mcp-exclude-tools", "memo_get_memo"),
        ("x-mcp-toolsets", "tags"),
    ] {
        let fewer = allowed(&request_filter(&headers(&[pair]), "/mcp/x/memos,tags"));
        assert!(fewer.iter().all(|name| base.contains(name)));
    }
    let by_headers = allowed(&ToolFilter::from_headers(&headers(&[(
        "x-mcp-toolsets",
        "tags,relations",
    )])));
    let by_both = allowed(&request_filter(
        &headers(&[("x-mcp-toolsets", "tags,relations")]),
        "/mcp/x/tags/readonly",
    ));
    assert_eq!(by_both, vec!["tag_list_tags"]);
    assert!(by_both.iter().all(|name| by_headers.contains(name)));
}

#[test]
fn calls_refused_where_not_listed() {
    let filter = ToolFilter::default().with_path("/mcp/x/tags,reactions/readonly");
    let server = MemosServer::new("http://m".to_string(), String::new());
    let filtered = FilteredServer::new(server, &filter);
    let tools: Vec<(String, &str)> = CURATED_TOOLS
        .iter()
        .map(|row| (row.0.to_string(), row.0))
        .collect();
    let listed = filtered.list_tools(tools);
    assert_eq!(listed, vec!["memo_list_memo_reactions", "tag_list_tags"]);
    for row in CURATED_TOOLS.iter() {
        assert_eq!(filtered.refuse_call(row.0).is_none(), listed.contains(&row.0));
    }
}
