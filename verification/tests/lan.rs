use memos::lan::server::{attachment_count_query, profile_filter, public_count_query, PROFILE_SCAN_LIMIT};
use memos::lan::protocol::frame_length;
use memos::lan::{LanError, MAX_FRAME_SIZE};
use memos::attachment::Attachment;
use memos::lan::auth::{filter_memos_for_peer, is_memo_visible, AclMode, AclRule};
use memos::lan::protocol::{Response, ResponseData};
use memos::lan::server::{
    attachment_access, attachment_found, clamp_page_limit, list_memos_filter, list_memos_page,
    memo_list_response,
    memo_access, memo_summary, profile_tags, remote_memo, respond, snippet_text, take_page,
};
use memos::memo::Memo;
use memos::types::{RowStatus, Visibility};

fn memo(id: i32, content: &str, visibility: Visibility) -> Memo {
    Memo {
        id,
        uid: format!("m{id}"),
        created_ts: 100 + id as i64,
        updated_ts: 200 + id as i64,
        row_status: RowStatus::Normal,
        content: content.to_string(),
        visibility,
        pinned: false,
        payload: "{}".to_string(),
        location: None,
    }
}

fn rule(peer: &str, mode: AclMode, tags: &[&str]) -> AclRule {
    AclRule {
        peer_id: peer.to_string(),
        display_name: None,
        mode,
        tags: tags.iter().map(|t| t.to_string()).collect(),
    }
}

fn ids(v: &[Memo]) -> Vec<i32> {
    v.iter().map(|m| m.id).collect()
}

#[test]
fn acl_mode_parses_its_names() {
    assert_eq!(AclMode::parse("allow"), Ok(AclMode::Allow));
    assert_eq!(AclMode::parse("deny"), Ok(AclMode::Deny));
    assert_eq!(AclMode::parse("Allow"), Err("invalid acl mode: Allow".to_string()));
    assert_eq!(AclMode::parse(""), Err("invalid acl mode: ".to_string()));
}

#[test]
fn acl_without_rules_shows_everything() {
    let memos = vec![
        memo(1, "#work a", Visibility::Public),
        memo(2, "#private b", Visibility::Public),
    ];
    let rules = vec![rule("other", AclMode::Deny, &["work"])];
    let out = filter_memos_for_peer(memos, "peer", &rules);
    assert_eq!(ids(&out), vec![1, 2]);
}

#[test]
fn acl_allow_limits_to_listed_tags() {
    let memos = vec![
        memo(1, "#work a", Visibility::Public),
        memo(2, "#life b", Visibility::Public),
        memo(3, "no tags", Visibility::Public),
        memo(4, "#life #work", Visibility::Public),
    ];
    let rules = vec![rule("peer", AclMode::Allow, &["work"])];
    let out = filter_memos_for_peer(memos, "peer", &rules);
    assert_eq!(ids(&out), vec![1, 4]);
}

#[test]
fn acl_deny_wins_over_allow() {
    let memos = vec![
        memo(1, "#work a", Visibility::Public),
        memo(2, "#work #secret", Visibility::Public),
        memo(3, "#secret", Visibility::Public),
    ];
    let rules = vec![
        rule("peer", AclMode::Allow, &["work"]),
        rule("peer", AclMode::Deny, &["secret"]),
    ];
    let out = filter_memos_for_peer(memos, "peer", &rules);
    assert_eq!(ids(&out), vec![1]);
}

#[test]
fn acl_deny_only_hides_listed_tags() {
    let memos = vec![
        memo(1, "#work a", Visibility::Public),
        memo(2, "plain", Visibility::Public),
        memo(3, "#secret", Visibility::Public),
    ];
    let rules = vec![rule("peer", AclMode::Deny, &["secret"])];
    let out = filter_memos_for_peer(memos, "peer", &rules);
    assert_eq!(ids(&out), vec![1, 2]);
}

#[test]
fn acl_allow_rule_without_tags_allows_all_but_denied() {
    let rules = vec![
        rule("peer", AclMode::Allow, &[]),
        rule("peer", AclMode::Deny, &["x"]),
    ];
    assert!(is_memo_visible(&memo(1, "plain", Visibility::Public), "peer", &rules));
    assert!(!is_memo_visible(&memo(2, "#x", Visibility::Public), "peer", &rules));
}

#[test]
fn snippet_text_blanks_markers_and_truncates() {
    assert_eq!(snippet_text("# Title\n**bold**  _x_", 200), "Title bold x");
    assert_eq!(snippet_text("a|b>c", 200), "a b c");
    assert_eq!(snippet_text("abcdef", 3), "abc\u{2026}");
    assert_eq!(snippet_text("abc", 3), "abc");
    assert_eq!(snippet_text("", 3), "");
}

#[test]
fn page_limit_is_clamped() {
    assert_eq!(clamp_page_limit(0), 1);
    assert_eq!(clamp_page_limit(1), 1);
    assert_eq!(clamp_page_limit(50), 50);
    assert_eq!(clamp_page_limit(200), 200);
    assert_eq!(clamp_page_limit(201), 200);
}

#[test]
fn pages_slice_the_rows() {
    let rows: Vec<Memo> = (1..=5).map(|i| memo(i, "x", Visibility::Public)).collect();
    assert_eq!(ids(&take_page(&rows, 0, 2)), vec![1, 2]);
    assert_eq!(ids(&take_page(&rows, 3, 10)), vec![4, 5]);
    assert!(take_page(&rows, 5, 10).is_empty());
    assert!(take_page(&rows, 9, 1).is_empty());
}

#[test]
fn list_page_filters_then_pages_and_counts() {
    let rows = vec![
        memo(1, "#a", Visibility::Public),
        memo(2, "#b", Visibility::Public),
        memo(3, "#a", Visibility::Public),
        memo(4, "#a", Visibility::Public),
    ];
    let rules = vec![rule("p", AclMode::Allow, &["a"])];
    let (page, total) = list_memos_page(rows, "p", &rules, 1, 0);
    assert_eq!(total, 3);
    assert_eq!(ids(&page), vec![3]);
}

#[test]
fn list_filter_reads_public_memos() {
    let f = list_memos_filter(&Some(vec!["t".to_string()]));
    assert_eq!(f.visibility_list, vec![Visibility::Public]);
    assert_eq!(f.limit, Some(5000));
    assert!(f.order_by_pinned && f.order_by_updated_ts);
    assert_eq!(f.tag_search, vec!["t".to_string()]);
    assert!(list_memos_filter(&None).tag_search.is_empty());
}

#[test]
fn summary_carries_snippet_and_tags() {
    let m = memo(7, "# Head #tag body", Visibility::Public);
    let s = memo_summary(&m, true);
    assert_eq!(s.uid, "m7");
    assert_eq!(s.snippet, "Head tag body");
    assert_eq!(s.tags, vec!["tag".to_string()]);
    assert!(s.has_attachments);
}

#[test]
fn memo_access_refusals() {
    let rules = vec![rule("p", AclMode::Deny, &["hidden"])];
    let r = memo_access(None, "u1", "p", &rules);
    assert_eq!(r.unwrap_err(), (404, "memo not found: u1".to_string()));
    let r = memo_access(Some(memo(1, "x", Visibility::Private)), "m1", "p", &rules);
    assert_eq!(r.unwrap_err(), (403, "memo not public".to_string()));
    let r = memo_access(Some(memo(1, "#hidden", Visibility::Public)), "m1", "p", &rules);
    assert_eq!(r.unwrap_err(), (403, "memo not visible to peer".to_string()));
    let r = memo_access(Some(memo(1, "ok", Visibility::Public)), "m1", "p", &rules);
    assert_eq!(r.unwrap().id, 1);
}

fn attachment(memo_id: Option<i32>, size: i64) -> Attachment {
    Attachment {
        id: 1,
        uid: "a1".to_string(),
        created_ts: 1,
        updated_ts: 2,
        filename: "f.png".to_string(),
        blob: None,
        mime_type: "image/png".to_string(),
        size,
        memo_id,
        storage_type: "DATABASE".to_string(),
        reference: String::new(),
        payload: "{}".to_string(),
    }
}

#[test]
fn attachment_access_refusals() {
    let rules: Vec<AclRule> = vec![rule("p", AclMode::Allow, &["ok"])];
    assert_eq!(attachment_found(None, "zz").unwrap_err(), (404, "attachment not found: zz".to_string()));
    assert_eq!(attachment_found(Some(attachment(Some(1), 3)), "a1").unwrap().uid, "a1");
    assert_eq!(
        attachment_access(None, None, "p", &rules).unwrap_err(),
        (403, "attachment not associated with any memo".to_string())
    );
    assert_eq!(
        attachment_access(Some(1), None, "p", &rules).unwrap_err(),
        (403, "associated memo not found".to_string())
    );
    assert_eq!(
        attachment_access(Some(1), Some(memo(1, "#ok", Visibility::Protected)), "p", &rules)
            .unwrap_err(),
        (403, "associated memo not public".to_string())
    );
    assert_eq!(
        attachment_access(Some(1), Some(memo(1, "#no", Visibility::Public)), "p", &rules)
            .unwrap_err(),
        (403, "associated memo not visible to peer".to_string())
    );
    assert!(attachment_access(Some(1), Some(memo(1, "#ok", Visibility::Public)), "p", &rules).is_ok());
}

#[test]
fn remote_memo_lists_attachments() {
    let atts = vec![attachment(Some(1), 42), attachment(Some(1), -1)];
    let r = remote_memo(memo(1, "body", Visibility::Public), &atts);
    assert_eq!(r.content, "body");
    assert_eq!(r.attachments.len(), 2);
    assert_eq!(r.attachments[0].size, 42);
    assert_eq!(r.attachments[0].mime_type, "image/png");
    assert_eq!(r.attachments[1].size, u64::MAX);
}

#[test]
fn profile_tags_are_unique_in_order() {
    let memos = vec![
        memo(1, "#b #a", Visibility::Public),
        memo(2, "#a #c", Visibility::Public),
        memo(3, "none", Visibility::Public),
    ];
    assert_eq!(profile_tags(&memos), vec!["b", "a", "c"]);
    assert!(profile_tags(&Vec::new()).is_empty());
}

#[test]
fn respond_maps_results() {
    match respond(Err((404, "gone".to_string()))) {
        Response::Failure { code, message } => {
            assert_eq!(code, 404);
            assert_eq!(message, "gone");
        }
        _ => panic!("expected a failure"),
    }
    let data = ResponseData::Profile {
        display_name: "me".to_string(),
        public_memo_count: 2,
        tags: vec![],
    };
    match respond(Ok(data)) {
        Response::Success { data: ResponseData::Profile { display_name, .. } } => {
            assert_eq!(display_name, "me")
        }
        _ => panic!("expected a profile"),
    }
}

#[test]
fn frame_headers_announce_lengths() {
    assert_eq!(frame_length(&[0, 0, 1, 2]), Ok(258));
    assert_eq!(frame_length(&[1, 0, 0, 0]), Ok(MAX_FRAME_SIZE));
    assert_eq!(frame_length(&[1, 0, 0, 1]), Err(LanError::FrameTooLarge(MAX_FRAME_SIZE + 1)));
}

#[test]
fn profile_and_count_statements() {
    assert_eq!(
        public_count_query().sql,
        "SELECT count(*) FROM memo WHERE visibility = 'PUBLIC' AND row_status = 'NORMAL'"
    );
    let q = attachment_count_query(7);
    assert_eq!(q.sql, "SELECT count(*) FROM attachment WHERE memo_id = ?1");
    assert_eq!(q.args, vec![memos::sql::SqlValue::Integer(7)]);
    let f = profile_filter();
    assert_eq!(f.visibility_list, vec![Visibility::Public]);
    assert_eq!(f.limit, Some(PROFILE_SCAN_LIMIT));
    assert!(f.tag_search.is_empty());
}

#[test]
fn list_response_summarises_visible_page() {
    let rows = vec![
        memo(1, "one #rust", Visibility::Public),
        memo(2, "two #secret", Visibility::Public),
        memo(3, "three #rust #go", Visibility::Public),
    ];
    let rules = vec![rule("peer", AclMode::Deny, &["secret"])];
    let (page, total) = list_memos_page(rows, "peer", &rules, 1, 10);
    assert_eq!(total, 2);
    assert_eq!(ids(&page), vec![3]);
    match memo_list_response(&page, &vec![true], total) {
        ResponseData::MemoList { memos, total } => {
            assert_eq!(total, 2);
            assert_eq!(memos.len(), 1);
            assert_eq!(memos[0].tags, vec!["rust", "go"]);
            assert!(memos[0].has_attachments);
            assert_eq!(memos[0].uid, page[0].uid);
        }
        other => panic!("unexpected {:?}", other),
    }
}
