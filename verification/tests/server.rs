use memos::mcp::{
    check_tool_call, classify_method, create_from_args, deleted_result, list_from_args,
    memo_lookup, method_answered, method_error, normalize_config, parse_visibility,
    search_from_args, test_url, tool_failure, update_from_args, CreateMemoArgs, ListMemosArgs,
    McpConfig, McpMethod, ToolContent, UpdateMemoArgs, INVALID_PARAMS, METHOD_NOT_FOUND,
};
use memos::mcp_http::{
    admit_request, bind_address, head_complete, head_too_large, http_response, parse_request_head,
    parse_size_text, read_request_head, reply_shape, status_text, ReplyShape,
};
use memos::types::{RowStatus, Visibility};

fn text_of(r: &memos::mcp::CallToolResult) -> String {
    match &r.content[0] {
        ToolContent::Text { text } => text.clone(),
    }
}

#[test]
fn methods_are_classified() {
    assert_eq!(classify_method("initialize"), McpMethod::Initialize);
    assert_eq!(classify_method("tools/call"), McpMethod::ToolsCall);
    assert_eq!(classify_method("logging/setLevel"), McpMethod::LoggingSetLevel);
    assert_eq!(classify_method("nope"), McpMethod::Unknown);
    assert!(!method_answered(McpMethod::Initialized, true));
    assert!(!method_answered(McpMethod::Ping, false));
    assert!(!method_answered(McpMethod::ToolsList, false));
    assert!(method_answered(McpMethod::Ping, true));
    assert_eq!(
        method_error(McpMethod::Unknown, "unknown/method"),
        Some((METHOD_NOT_FOUND, "未知方法: unknown/method".to_string()))
    );
    assert_eq!(
        method_error(McpMethod::ResourcesRead, "resources/read"),
        Some((METHOD_NOT_FOUND, "resources/read 暂未实现".to_string()))
    );
    assert_eq!(method_error(McpMethod::Ping, "ping"), None);
}

#[test]
fn tool_calls_are_checked() {
    assert_eq!(check_tool_call(""), Err((INVALID_PARAMS, "工具 name 不能为空".to_string())));
    assert_eq!(check_tool_call("rm"), Err((METHOD_NOT_FOUND, "未知工具: rm".to_string())));
    assert!(check_tool_call("search_memos").is_ok());
    let f = tool_failure("boom");
    assert_eq!(f.is_error, Some(true));
    assert_eq!(text_of(&f), "工具执行失败: boom");
}

#[test]
fn create_args() {
    assert_eq!(parse_visibility(Some("PUBLIC")), Visibility::Public);
    assert_eq!(parse_visibility(Some("public")), Visibility::Private);
    assert_eq!(parse_visibility(None), Visibility::Private);
    let args = CreateMemoArgs {
        content: "  ".to_string(),
        visibility: None,
        pinned: None,
        uid: None,
    };
    let e = create_from_args(args, "gen".to_string()).unwrap_err();
    assert_eq!(text_of(&e), "content 不能为空");
    let args = CreateMemoArgs {
        content: "#a body".to_string(),
        visibility: Some("PROTECTED".to_string()),
        pinned: Some(true),
        uid: None,
    };
    let c = create_from_args(args, "gen".to_string()).unwrap();
    assert_eq!(c.uid, "gen");
    assert_eq!(c.visibility, Visibility::Protected);
    assert!(c.pinned);
}

#[test]
fn update_and_delete_args() {
    let e = memo_lookup(None, None).unwrap_err();
    assert_eq!(text_of(&e), "必须提供 id 或 uid");
    let f = memo_lookup(Some(3), None).unwrap();
    assert_eq!(f.id, Some(3));
    let (u, sync) = update_from_args(
        3,
        UpdateMemoArgs {
            content: None,
            visibility: Some("OTHER".to_string()),
            pinned: Some(false),
            archived: Some(true),
        },
    );
    assert_eq!(u.row_status, Some(RowStatus::Archived));
    assert_eq!(u.visibility, Some(Visibility::Private));
    assert!(sync);
    let (u, sync) = update_from_args(
        3,
        UpdateMemoArgs { content: None, visibility: None, pinned: Some(true), archived: None },
    );
    assert!(u.row_status.is_none());
    assert!(!sync);
    assert_eq!(text_of(&deleted_result(7, "abc")), "已删除 memo id=7 uid=abc");
}

#[test]
fn list_and_search_args() {
    let f = list_from_args(ListMemosArgs {
        limit: None,
        offset: Some(-5),
        tag: Some("rust".to_string()),
        search: Some("   ".to_string()),
        include_archived: None,
    });
    assert_eq!(f.limit, Some(20));
    assert_eq!(f.offset, Some(0));
    assert_eq!(f.tag_search, vec!["rust".to_string()]);
    assert!(f.fts_query.is_none());
    assert_eq!(f.row_status, Some(RowStatus::Normal));
    let f = list_from_args(ListMemosArgs {
        limit: Some(500),
        offset: Some(4),
        tag: None,
        search: Some("x".to_string()),
        include_archived: Some(true),
    });
    assert_eq!(f.limit, Some(200));
    assert_eq!(f.offset, Some(4));
    assert_eq!(f.fts_query.as_deref(), Some("x"));
    assert!(f.row_status.is_none());
    let e = search_from_args(" ".to_string(), None).unwrap_err();
    assert_eq!(text_of(&e), "query 不能为空");
    let f = search_from_args("term".to_string(), Some(0)).unwrap();
    assert_eq!(f.limit, Some(1));
}

#[test]
fn config_is_normalized() {
    let mut c = McpConfig::default_config();
    c.host = "  0.0.0.0 ".to_string();
    c.auth_token = " tok ".to_string();
    let n = normalize_config(c).unwrap();
    assert_eq!(n.host, "0.0.0.0");
    assert_eq!(n.auth_token, "tok");
    let mut c = McpConfig::default_config();
    c.port = 0;
    assert!(normalize_config(c).is_err());
    assert_eq!(test_url("http://127.0.0.1:27100/mcp"), "http://127.0.0.1:27100/mcp");
    assert_eq!(test_url("http://h/mcp/mcp"), "http://h/mcp");
    assert_eq!(test_url("http://h/"), "http://h//mcp");
}

#[test]
fn request_heads_are_parsed() {
    let head = "POST /mcp HTTP/1.1\r\nHost: x\r\nContent-Length: 42\r\nAUTHORIZATION:  Bearer t \r\nMcp-Session-Id: s1\r\n\r\n";
    let h = parse_request_head(head);
    assert_eq!(h.method, "POST");
    assert_eq!(h.path, "/mcp");
    assert_eq!(h.content_length, 42);
    assert_eq!(h.authorization, "Bearer t");
    assert_eq!(h.session_id.as_deref(), Some("s1"));
    assert_eq!(h.content_type, "");
    let h = read_request_head(b"GET / HTTP/1.1\r\ncontent-length: +7\r\ncontent-length: x\r\n\r\n");
    assert_eq!(h.method, "GET");
    assert_eq!(h.content_length, 0);
    let h = parse_request_head("");
    assert_eq!(h.method, "");
    assert_eq!(h.path, "");
}

#[test]
fn sizes_parse_like_from_str() {
    let p = |s: &str| parse_size_text(&s.chars().collect());
    assert_eq!(p("0"), Some(0));
    assert_eq!(p("+12"), Some(12));
    assert_eq!(p("+"), None);
    assert_eq!(p(""), None);
    assert_eq!(p("-1"), None);
    assert_eq!(p("1 2"), None);
    assert_eq!(p("99999999999999999999999"), None);
    assert_eq!(p("18446744073709551615"), Some(usize::MAX));
}

#[test]
fn requests_are_admitted() {
    let mut cfg = McpConfig::default_config();
    let h = parse_request_head("GET /mcp HTTP/1.1\r\n\r\n");
    assert_eq!(admit_request(&h, &cfg).unwrap_err().0, 404);
    let h = parse_request_head("POST /mcp HTTP/1.1\r\nContent-Length: 10\r\n\r\n");
    assert_eq!(admit_request(&h, &cfg), Ok(10));
    cfg.auth_token = " secret ".to_string();
    let e = admit_request(&h, &cfg).unwrap_err();
    assert_eq!(e, (401, "Unauthorized: invalid or missing Bearer token".to_string()));
    let h = parse_request_head(
        "POST /mcp HTTP/1.1\r\nAuthorization: Bearer secret\r\nContent-Length: 99999999\r\n\r\n",
    );
    assert_eq!(admit_request(&h, &cfg).unwrap_err(), (413, "request body too large".to_string()));
}

#[test]
fn answers_are_written() {
    assert!(head_complete(&b"GET / HTTP/1.1\r\n\r\n".to_vec()));
    assert!(!head_complete(&b"GET / HTTP/1.1\r\n".to_vec()));
    assert!(!head_too_large(16383));
    assert!(head_too_large(16384));
    assert_eq!(status_text(413), "Payload Too Large");
    assert_eq!(status_text(299), "OK");
    assert_eq!(
        http_response(202, "application/json", ""),
        "HTTP/1.1 202 Accepted\r\nContent-Type: application/json\r\nContent-Length: 0\r\nConnection: close\r\n\r\n"
    );
    assert_eq!(
        http_response(200, "text/plain", "é"),
        "HTTP/1.1 200 OK\r\nContent-Type: text/plain\r\nContent-Length: 2\r\nConnection: close\r\n\r\né"
    );
    assert_eq!(reply_shape(0), ReplyShape::Accepted);
    assert_eq!(reply_shape(1), ReplyShape::Single);
    assert_eq!(reply_shape(3), ReplyShape::Batch);
    assert_eq!(bind_address(&McpConfig::default_config()), "127.0.0.1:27100");
}
