use memos::agent::{
    create_memo_request, hex_uid, http_error_message, is_http_failure, list_by_tag_filter,
    list_memos_tool_filter, parse_agent_tool, prefixed_message, required_arg,
    rounds_exceeded_message, tool_definitions, tool_reply, visibility_label, AfterStream,
    AgentRun, AgentTool, RoundStart, MAX_AGENT_ROUNDS,
};
use memos::ai::{
    completion_status, parse_suggested_tags, reply_text, suggest_tags_message, ProviderConfig,
};
use memos::error::{CoreError, IpcError};
use memos::mcp;
use memos::review::{
    bracketed_span, card_error, card_not_found, check_new_deck, deck_memo_count_query, clamp_cards_per_memo, deck_not_found,
    due_limit, generation_prompt, memo_angles, new_memo_count, pick_review_provider,
    regeneration_prompt, CARD_AGENT_ROUNDS, CARD_ROUNDS_EXCEEDED, CARD_RUN_CANCELLED,
};
use memos::sse::ToolCallAccumulator;
use memos::types::{RowStatus, Visibility};

#[test]
fn tools_test_tool_definitions_count() {
    // The assistant's tools.
    let defs = tool_definitions();
    assert_eq!(defs.len(), 5);
    let names: Vec<&str> = defs.iter().map(|d| d.name.as_str()).collect();
    assert!(names.contains(&"list_memos"));
    assert!(names.contains(&"get_memo"));
    assert!(names.contains(&"create_memo"));
    assert!(names.contains(&"list_tags"));
    assert!(names.contains(&"list_memos_by_tag"));

    // The tool server's tools.
    let tools = mcp::tool_definitions();
    assert_eq!(tools.len(), 7);
    let names: Vec<&str> = tools.iter().map(|t| t.name.as_str()).collect();
    assert!(names.contains(&"create_memo"));
    assert!(names.contains(&"update_memo"));
    assert!(names.contains(&"delete_memo"));
    assert!(names.contains(&"get_memo"));
    assert!(names.contains(&"list_memos"));
    assert!(names.contains(&"search_memos"));
    assert!(names.contains(&"list_tags"));
}

#[test]
fn test_tool_schemas_are_objects() {
    for tool in mcp::tool_definitions() {
        let v: serde_json::Value = serde_json::from_str(&tool.input_schema).unwrap();
        assert_eq!(v["type"], "object", "tool {} inputSchema must be an object", tool.name);
    }
}

#[test]
fn agent_tool_parameters() {
    let defs = tool_definitions();
    assert_eq!(defs[1].params[0].name, "uid");
    assert!(defs[1].params[0].required);
    assert_eq!(defs[4].params[0].kind, "array");
    assert_eq!(defs[4].params[0].items.as_deref(), Some("string"));
    assert!(defs[3].params.is_empty());
}

#[test]
fn unknown_tool_is_refused() {
    assert_eq!(parse_agent_tool("get_memo").unwrap(), AgentTool::GetMemo);
    assert_eq!(parse_agent_tool("list_memos_by_tag").unwrap(), AgentTool::ListMemosByTag);
    match parse_agent_tool("unknown_tool") {
        Err(CoreError::Other(m)) => assert_eq!(m, "未知工具: unknown_tool"),
        other => panic!("unexpected {other:?}"),
    }
}

#[test]
fn list_memos_filter_searches_by_words() {
    let f = list_memos_tool_filter("", None);
    assert_eq!(f.limit, Some(10));
    assert_eq!(f.row_status, Some(RowStatus::Normal));
    assert!(f.fts_query.is_none() && f.content_contains.is_none());

    let f = list_memos_tool_filter("Rust ownership", Some(100));
    assert_eq!(f.limit, Some(50));
    assert_eq!(f.fts_query.as_deref(), Some("\"Rust\" \"ownership\""));
    assert!(f.content_contains.is_none());

    let f = list_memos_tool_filter("go lang", Some(0));
    assert_eq!(f.limit, Some(1));
    assert_eq!(f.content_contains.as_deref(), Some("go lang"));
    assert!(f.fts_query.is_none());

    // Three bytes in UTF-8 is not short.
    let f = list_memos_tool_filter("笔", Some(5));
    assert_eq!(f.fts_query.as_deref(), Some("\"笔\""));

    let f = list_memos_tool_filter("say\"hi", None);
    assert_eq!(f.fts_query.as_deref(), Some("\"say\"\"hi\""));

    // A limit beyond 32 bits is cut first.
    let f = list_memos_tool_filter("", Some((1i64 << 32) + 7));
    assert_eq!(f.limit, Some(7));
}

#[test]
fn list_by_tag_filter_needs_tags() {
    assert!(list_by_tag_filter(vec![], Some(3)).is_none());
    let f = list_by_tag_filter(vec!["rust".to_string()], None).unwrap();
    assert_eq!(f.limit, Some(50));
    assert_eq!(f.tag_search, vec!["rust".to_string()]);
    let f = list_by_tag_filter(vec!["a".to_string()], Some(999)).unwrap();
    assert_eq!(f.limit, Some(200));
}

#[test]
fn required_args_and_ids() {
    assert_eq!(required_arg(Some("x".to_string()), "uid").unwrap(), "x");
    match required_arg(None, "content") {
        Err(CoreError::Other(m)) => assert_eq!(m, "缺少 content 参数"),
        other => panic!("unexpected {other:?}"),
    }
    assert_eq!(hex_uid(0x1f), "000000000000001f");
    assert_eq!(hex_uid(u64::MAX), "ffffffffffffffff");
    let c = create_memo_request("u1".to_string(), "#test 新笔记".to_string());
    assert_eq!(c.visibility, Visibility::Private);
    assert!(!c.pinned);
    assert_eq!(c.payload, "{}");
    assert_eq!(visibility_label(Visibility::Protected), "Protected");
}

#[test]
fn agent_run_rounds() {
    let mut run = AgentRun::new(MAX_AGENT_ROUNDS);
    assert_eq!(run.begin_round(true), RoundStart::Cancel);
    assert_eq!(run.begin_round(false), RoundStart::Request);
    let call = ToolCallAccumulator {
        index: 0,
        id: "call_1".to_string(),
        name: "list_tags".to_string(),
        arguments: "{}".to_string(),
    };
    match run.end_stream("thinking".to_string(), vec![call], false) {
        AfterStream::RunTools(m) => {
            assert_eq!(m.role, "assistant");
            assert_eq!(m.content, "thinking");
            assert_eq!(m.tool_calls.len(), 1);
        }
        _ => panic!("expected tools"),
    }
    assert_eq!(run.round, 1);
    match run.end_stream("done".to_string(), vec![], false) {
        AfterStream::Finish(t) => assert_eq!(t, "done"),
        _ => panic!("expected the end"),
    }
    assert!(matches!(run.end_stream(String::new(), vec![], true), AfterStream::Cancel));

    let mut run = AgentRun::new(1);
    let call = ToolCallAccumulator::default();
    run.end_stream(String::new(), vec![call], false);
    assert_eq!(run.begin_round(false), RoundStart::Exceeded);
    assert_eq!(run.begin_round(true), RoundStart::Exceeded);
    assert_eq!(rounds_exceeded_message(MAX_AGENT_ROUNDS), "超过最大工具调用轮次 (5)");

    let r = tool_reply("call_1".to_string(), "{\"tags\":[]}".to_string());
    assert_eq!(r.role, "tool");
    assert_eq!(r.tool_call_id.as_deref(), Some("call_1"));
}

#[test]
fn http_messages() {
    assert!(is_http_failure(400));
    assert!(!is_http_failure(399));
    assert_eq!(http_error_message(502, "bad gateway"), "HTTP 502: bad gateway");
    assert_eq!(prefixed_message("SSE 读取失败: ", "eof"), "SSE 读取失败: eof");
    match completion_status(401, "no key") {
        Err(IpcError::Internal(m)) => assert_eq!(m, "HTTP 401: no key"),
        other => panic!("unexpected {other:?}"),
    }
    assert!(completion_status(200, "").is_ok());
    assert_eq!(reply_text(None), "");
    assert_eq!(reply_text(Some("hi".to_string())), "hi");
}

#[test]
fn suggested_tags_are_cleaned() {
    let existing = vec!["rust".to_string()];
    let r = parse_suggested_tags(" #编程 ，rust、 系统 ,, #a#b ", &existing);
    assert_eq!(r, vec!["编程", "系统", "ab"]);
    let many = "a,b,c,d,e,f,g,h,i,j,k,l";
    let r = parse_suggested_tags(many, &vec![]);
    assert_eq!(r.len(), 10);
    assert_eq!(r[9], "j");
    assert!(parse_suggested_tags("", &vec![]).is_empty());
}

#[test]
fn suggest_message_lists_known_tags() {
    assert_eq!(suggest_tags_message(&vec![], "body"), "笔记内容：\n\nbody");
    assert_eq!(
        suggest_tags_message(&vec!["a".to_string(), "b".to_string()], "body"),
        "系统已有标签：\na, b\n\n笔记内容：\n\nbody"
    );
}

fn provider(id: &str) -> ProviderConfig {
    ProviderConfig {
        id: id.to_string(),
        name: id.to_string(),
        base_url: "http://x/v1".to_string(),
        api_key: String::new(),
        model: "m".to_string(),
    }
}

#[test]
fn review_settings() {
    assert_eq!(clamp_cards_per_memo(0), 1);
    assert_eq!(clamp_cards_per_memo(11), 10);
    assert_eq!(clamp_cards_per_memo(4), 4);
    assert!(matches!(check_new_deck("  ", 3), Err(IpcError::BadRequest(_))));
    assert_eq!(check_new_deck("deck", 30).unwrap(), 10);
    assert_eq!(due_limit(None), 50);
    assert_eq!(due_limit(Some(0)), 1);
    assert_eq!(due_limit(Some(1000)), 500);
    assert_eq!(new_memo_count(7, 3), 4);
    assert_eq!(new_memo_count(2, 5), 0);
    match deck_not_found(-3) {
        IpcError::NotFound(m) => assert_eq!(m, "deck id=-3"),
        _ => panic!(),
    }
    match card_not_found(12) {
        IpcError::NotFound(m) => assert_eq!(m, "card id=12"),
        _ => panic!(),
    }
}

#[test]
fn review_provider_choice() {
    let ps = vec![provider("a"), provider("b")];
    assert_eq!(pick_review_provider(&ps, "b").unwrap().id, "b");
    assert_eq!(pick_review_provider(&ps, "").unwrap().id, "a");
    match pick_review_provider(&ps, "zz") {
        Err(IpcError::BadRequest(m)) => assert_eq!(m, "review_config 指定的 provider 不存在"),
        _ => panic!(),
    }
    match pick_review_provider(&[], "") {
        Err(IpcError::BadRequest(m)) => assert_eq!(m, "未配置 AI provider，请先在设置中配置"),
        _ => panic!(),
    }
}

#[test]
fn review_prompts() {
    let p = generation_prompt(&vec!["rust".to_string(), "ai".to_string()], 3);
    assert!(p.starts_with("请为以下标签的笔记生成记忆卡片：\n- 标签：rust, ai\n- 每条笔记最多生成 3 张卡片"));
    let cards = vec![
        ("m1".to_string(), "定义".to_string()),
        ("m2".to_string(), "应用".to_string()),
        ("m1".to_string(), "对比".to_string()),
    ];
    let angles = memo_angles(&cards, "m1");
    assert_eq!(angles, vec!["定义", "对比"]);
    let p = regeneration_prompt("m1", &angles);
    assert!(p.contains("已存在的考核点：[定义, 对比]"));
    assert!(p.starts_with("请为 memo（uid: m1）"));
}

#[test]
fn card_json_span() {
    assert_eq!(bracketed_span("Here: [{\"a\":1}] done").as_deref(), Some("[{\"a\":1}]"));
    assert_eq!(bracketed_span("[1] and [2]").as_deref(), Some("[1] and [2]"));
    assert!(bracketed_span("no array").is_none());
    assert!(bracketed_span("] then [").is_none());
    assert!(bracketed_span("[").is_none());
}

#[test]
fn card_run_reports() {
    assert_eq!(card_error("m1", "UID 已存在: x"), "card memo_uid=m1: UID 已存在: x");
    let q = deck_memo_count_query(4, 9);
    assert_eq!(q.sql, "UPDATE review_deck SET memo_count = ?1 WHERE id = ?2");
    assert_eq!(q.args, vec![memos::sql::SqlValue::Integer(4), memos::sql::SqlValue::Integer(9)]);
    assert_eq!(CARD_AGENT_ROUNDS, 5);
    assert_eq!(CARD_RUN_CANCELLED, "应用正在退出，已取消卡片生成");
    assert_eq!(CARD_ROUNDS_EXCEEDED, "超过最大工具调用轮次");
    let mut run = AgentRun::new(CARD_AGENT_ROUNDS);
    assert_eq!(run.begin_round(false), RoundStart::Request);
    run.round = CARD_AGENT_ROUNDS;
    assert_eq!(run.begin_round(false), RoundStart::Exceeded);
}
