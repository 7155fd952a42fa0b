use memos::attachment::Attachment;
use memos::attachment_url::{
    answer_content_type, attachment_uid, reads_local_file, try_thumbnail, unknown_attachment,
    wants_thumbnail,
};
use memos::chat_session::{preview_text, session_not_found, session_preview, MessageContent};
use memos::commands::{
    build_find, count_comments_query, count_filter, llm_test_failure, llm_test_result,
    mcp_test_result, memo_timestamps, render_memo_content, sort_timestamps, ListMemosRequest,
};
use memos::document::{conversion_extension, summary_request};
use memos::error::{CoreError, IpcError};
use memos::import_export::{archive_query, created_ts_query, import_plan, uid_count_query, ImportMemoRecord};
use memos::lan::discovery::{
    acl_json_or_default, display_name_or_default, not_implemented, peer_id_chars_prefix, remove_peer,
    response_result, secret_key_bytes, upsert_peer,
};
use memos::lan::protocol::{Response, ResponseData};
use memos::lan::{ipc_from_lan, LanError, PeerInfo};
use memos::llm_runner::{
    exit_failure_message, load_command, models_url, stop_command, validate_config,
    LlmRunnerConfig, LlmRunnerError, RunnerRecord,
};
use memos::sql::SqlValue;
use memos::types::{RowStatus, Visibility};

#[test]
fn previews_of_message_content() {
    let t = MessageContent::Text("hello".to_string());
    assert_eq!(preview_text(&t).as_deref(), Some("hello"));
    let parts = MessageContent::Parts(vec![
        Some("a".to_string()),
        None,
        Some("b".to_string()),
    ]);
    assert_eq!(preview_text(&parts).as_deref(), Some("a b"));
    let empty = MessageContent::Parts(vec![Some(String::new()), None]);
    assert!(preview_text(&empty).is_none());
    assert!(preview_text(&MessageContent::Other).is_none());
    let long = MessageContent::Text("x".repeat(61));
    assert_eq!(session_preview(&long), Some(format!("{}...", "x".repeat(60))));
    let exact = MessageContent::Text("y".repeat(60));
    assert_eq!(session_preview(&exact), Some("y".repeat(60)));
    match session_not_found(42) {
        CoreError::NotFound(m) => assert_eq!(m, "session id=42"),
        _ => panic!(),
    }
}

#[test]
fn memo_metadata_is_rendered() {
    let m = render_memo_content("# T\n#tag hi @bob".to_string());
    assert_eq!(m.tags, vec!["tag".to_string()]);
    assert_eq!(m.mentions, vec!["bob".to_string()]);
    assert!(m.html.contains("<h1>T</h1>"));
    assert_eq!(m.snippet, "T tag hi @bob");
}

#[test]
fn timestamps_are_sorted() {
    assert_eq!(sort_timestamps(&vec![5, -1, 3, 3, 0]), vec![-1, 0, 3, 3, 5]);
    assert!(sort_timestamps(&vec![]).is_empty());
    let t = memo_timestamps(&vec![2, 1], &vec![9, 8, 7]);
    assert_eq!(t.created_timestamps, vec![1, 2]);
    assert_eq!(t.updated_timestamps, vec![7, 8, 9]);
}

#[test]
fn list_requests_become_filters() {
    let req = ListMemosRequest {
        id: None,
        uid: Some("u".to_string()),
        id_list: None,
        uid_list: Some(vec!["a".to_string()]),
        row_status: Some(RowStatus::Archived),
        visibility_list: Some(vec![Visibility::Public]),
        exclude_content: true,
        content_contains: None,
        fts_query: None,
        vector_embedding: None,
        vector_top_k: Some(5),
        tag_search: None,
        created_ts_after: Some(1),
        created_ts_before: None,
        updated_ts_after: None,
        updated_ts_before: None,
        limit: Some(10),
        offset: Some(20),
        order_by_pinned: true,
        order_by_updated_ts: false,
        order_by_time_asc: true,
    };
    let f = build_find(req);
    assert_eq!(f.uid.as_deref(), Some("u"));
    assert!(f.id_list.is_empty());
    assert_eq!(f.uid_list, vec!["a".to_string()]);
    assert_eq!(f.visibility_list, vec![Visibility::Public]);
    assert!(f.exclude_content && f.order_by_pinned && f.order_by_time_asc);
    assert_eq!(f.vector_top_k, Some(5));
    let c = count_filter(f);
    assert!(c.limit.is_none() && c.offset.is_none());
    assert_eq!(c.created_ts_after, Some(1));
    assert!(count_comments_query(&vec![]).is_none());
    let q = count_comments_query(&vec![4, 9]).unwrap();
    assert_eq!(q.sql, "SELECT parent_id, COUNT(*) FROM memo WHERE parent_id IN (?,?) GROUP BY parent_id");
    assert_eq!(q.args, vec![SqlValue::Integer(4), SqlValue::Integer(9)]);
}

#[test]
fn connection_test_results() {
    let r = llm_test_result(200, "{\"data\":[]}");
    assert!(r.ok && r.error.is_none());
    let r = llm_test_result(503, &"z".repeat(600));
    assert!(!r.ok);
    assert_eq!(r.error.as_deref(), Some("HTTP 503"));
    assert_eq!(r.body_preview.chars().count(), 500);
    let r = llm_test_failure("网络错误: refused".to_string());
    assert_eq!(r.status, 0);
    let r = mcp_test_result(200, "{\"result\":{\"tools\":[{\"name\":\"list_memos\"}]}}");
    assert!(r.ok && r.error.is_none());
    let r = mcp_test_result(200, "{\"result\":{}}");
    assert!(!r.ok);
    assert_eq!(r.error.as_deref(), Some("响应未包含预期工具列表"));
    let r = mcp_test_result(401, "no");
    assert_eq!(r.error.as_deref(), Some("HTTP 401"));
}

#[test]
fn document_requests() {
    assert_eq!(conversion_extension("pdf"), ".pdf");
    let r = summary_request("a.pdf", "héllo");
    assert!(r.starts_with("以下是文档《a.pdf》的前 5 字符内容"));
    assert!(r.ends_with("---\nhéllo"));
}

fn att(storage: &str, reference: &str) -> Attachment {
    Attachment {
        id: 1,
        uid: "a".to_string(),
        created_ts: 0,
        updated_ts: 0,
        filename: "f".to_string(),
        blob: None,
        mime_type: "image/png".to_string(),
        size: 1,
        memo_id: None,
        storage_type: storage.to_string(),
        reference: reference.to_string(),
        payload: "{}".to_string(),
    }
}

#[test]
fn attachment_urls() {
    assert_eq!(attachment_uid("/attachments/abc").unwrap(), "abc");
    assert_eq!(attachment_uid("abc").unwrap(), "abc");
    assert_eq!(attachment_uid("/attachments/"), Err((400, "missing attachment uid".to_string())));
    assert!(wants_thumbnail("x=1&thumbnail=true"));
    assert!(!wants_thumbnail("thumbnail=false"));
    assert!(!wants_thumbnail(""));
    assert!(reads_local_file(&att("LOCAL", "2024/a.png")));
    assert!(!reads_local_file(&att("LOCAL", "")));
    assert!(!reads_local_file(&att("DATABASE", "x")));
    assert!(try_thumbnail(true, "image/png"));
    assert!(!try_thumbnail(true, "application/pdf"));
    assert_eq!(answer_content_type(true, "image/png"), "image/jpeg");
    assert_eq!(answer_content_type(false, "image/png"), "image/png");
    assert_eq!(unknown_attachment("q"), (404, "attachment not found: q".to_string()));
}

#[test]
fn imports() {
    let rec = ImportMemoRecord {
        uid: None,
        content: "c".to_string(),
        visibility: Visibility::Public,
        pinned: true,
        payload: "{}".to_string(),
        location: None,
        created_ts: Some(5),
        row_status: Some(RowStatus::Archived),
    };
    let p = import_plan(rec, "gen".to_string());
    assert_eq!(p.create.uid, "gen");
    assert!(p.archive);
    assert_eq!(p.created_ts, Some(5));
    assert_eq!(uid_count_query("u").args, vec![SqlValue::Text("u".to_string())]);
    assert_eq!(created_ts_query(3, 9).args, vec![SqlValue::Integer(9), SqlValue::Integer(3)]);
    assert_eq!(archive_query(3).sql, "UPDATE memo SET row_status = 'ARCHIVED' WHERE id = ?1");
}

fn peer(id: &str, seen: i64) -> PeerInfo {
    PeerInfo {
        peer_id: id.to_string(),
        display_name: id.to_string(),
        addrs: vec![],
        relay_url: None,
        last_seen: seen,
    }
}

#[test]
fn peer_cache() {
    let mut peers = Vec::new();
    upsert_peer(&mut peers, peer("a", 1));
    upsert_peer(&mut peers, peer("b", 1));
    upsert_peer(&mut peers, peer("a", 2));
    assert_eq!(peers.len(), 2);
    assert_eq!(peers[0].last_seen, 2);
    assert!(remove_peer(&mut peers, "a"));
    assert!(!remove_peer(&mut peers, "a"));
    assert_eq!(peers.len(), 1);
    assert_eq!(peers[0].peer_id, "b");
    assert_eq!(peer_id_chars_prefix("abcdefghij", 8), "abcdefgh");
    assert_eq!(peer_id_chars_prefix("abc", 8), "abc");
    assert_eq!(display_name_or_default(None), "LocalFragNote");
    assert_eq!(acl_json_or_default(None), "[]");
    assert!(secret_key_bytes(&vec![1u8; 31]).is_err());
    assert_eq!(secret_key_bytes(&vec![7u8; 32]).unwrap(), [7u8; 32]);
    match response_result(Response::Failure { code: 403, message: "no".to_string() }) {
        Err(LanError::Remote(c, m)) => assert_eq!((c, m.as_str()), (403, "no")),
        _ => panic!(),
    }
    let d = ResponseData::Profile { display_name: "x".to_string(), public_memo_count: 0, tags: vec![] };
    assert!(response_result(Response::Success { data: d }).is_ok());
    assert_eq!(not_implemented(), IpcError::Lan("not implemented".to_string()));
}

#[test]
fn error_messages() {
    assert_eq!(CoreError::NotFound("x".to_string()).message(), "未找到: x");
    assert_eq!(CoreError::InvalidUid.message(), "无效 UID 格式");
    assert_eq!(CoreError::Other("plain".to_string()).message(), "plain");
    assert_eq!(IpcError::BadRequest("b".to_string()).message(), "BadRequest: b");
    assert_eq!(IpcError::InvalidUid.message(), "InvalidUid");
    assert_eq!(IpcError::from_serde("eof".to_string()), IpcError::Internal("serde: eof".to_string()));
    assert_eq!(LanError::FrameTooLarge(20).message(), "frame too large: 20 bytes");
    assert_eq!(LanError::Remote(404, "gone".to_string()).message(), "remote error 404: gone");
    assert_eq!(ipc_from_lan(&LanError::RpcTimeout), IpcError::Lan("rpc timeout".to_string()));
    assert_eq!(LlmRunnerError::Config("c".to_string()).message(), "配置错误: c");
}

fn runner_config() -> LlmRunnerConfig {
    let mut c = LlmRunnerConfig::default_config();
    c.model_path = "qwen".to_string();
    c.extra_args = " --gpu  max ".to_string();
    c
}

#[test]
fn runner_config_checks() {
    let c = runner_config();
    assert!(validate_config(&c).is_ok());
    let mut bad = runner_config();
    bad.executable_path = " ".to_string();
    assert_eq!(validate_config(&bad), Err(IpcError::BadRequest("可执行文件路径不能为空".to_string())));
    let mut bad = runner_config();
    bad.host = String::new();
    assert_eq!(validate_config(&bad), Err(IpcError::BadRequest("监听 host 不能为空".to_string())));
    bad.runner_type = "lms".to_string();
    assert!(validate_config(&bad).is_ok());
    let mut bad = runner_config();
    bad.port = 0;
    assert_eq!(validate_config(&bad), Err(IpcError::BadRequest("监听端口不能为 0".to_string())));
    let mut bad = runner_config();
    bad.executable_path = "server; rm".to_string();
    assert!(validate_config(&bad).is_err());
    assert_eq!(models_url("http://h:1/v1//"), "http://h:1/v1/models");
}

#[test]
fn runner_commands_and_record() {
    let c = runner_config();
    let s = stop_command(&c);
    assert_eq!(s.args, vec!["server", "stop"]);
    let l = load_command(&c);
    assert_eq!(l.args, vec!["load", "qwen", "--gpu", "max"]);
    assert_eq!(
        exit_failure_message("lms load", -1, "oops"),
        "lms load 失败 (exit=-1): oops"
    );
    let mut r = RunnerRecord::new();
    r.record_start_failure("启动失败: x".to_string(), true);
    assert_eq!(r.last_error.as_deref(), Some("启动失败: x"));
    r.record_foreground_start(42, 1000);
    assert!(r.running);
    assert!(r.last_error.is_none());
    assert_eq!(r.logs.lines().back().unwrap(), "[info] 进程已启动 (pid=42)");
    let shown = r.record_output(&vec!["a".to_string(), String::new(), "b".to_string()]);
    assert_eq!(shown, vec!["a", "b"]);
    assert!(r.check_running(false, true));
    assert!(!r.check_running(false, false));
    assert!(r.started_at.is_none() && r.pid.is_none());
    r.record_daemon_start(5);
    assert!(r.check_running(true, false));
    r.record_stopped(Some("[info] 进程已退出".to_string()));
    assert!(!r.running);
    let st = r.status(runner_config());
    assert!(!st.running);
    assert_eq!(st.recent_logs.last().unwrap(), "[info] 进程已退出");
    assert_eq!(st.base_url, "http://127.0.0.1:8080/v1");
}
