use memos::attachment::{CreateAttachment, FindAttachment, UpdateAttachment};
use memos::error::CoreError;
use memos::lan::protocol::{read_frame, write_frame, SliceReader};
use memos::lan::LanError;
use memos::memo::{
    build_create_query, build_knn_query, build_list_query, build_update_query, escape_like_pattern,
    finish_list, has_all_tags, insert_error, page, sort_by_order, CreateMemo, FindMemo, Memo,
    UpdateMemo,
};
use memos::memo_relation::{FindMemoRelation, UpsertMemoRelation};
use memos::reaction::{FindReaction, UpsertReaction};
use memos::review::{rating_from_u8, state_from_u8, state_to_u8, CardState, Rating};
use memos::sql::SqlValue;
use memos::types::{validate_uid, MemoRelationType, RowStatus, Visibility};

fn text(s: &str) -> SqlValue {
    SqlValue::Text(s.to_string())
}

fn memo(id: i32, content: &str) -> Memo {
    Memo {
        id,
        uid: format!("m{id}"),
        created_ts: id as i64,
        updated_ts: id as i64,
        row_status: RowStatus::Normal,
        content: content.to_string(),
        visibility: Visibility::Private,
        pinned: false,
        payload: "{}".to_string(),
        location: None,
    }
}

fn ids(v: &[Memo]) -> Vec<i32> {
    v.iter().map(|m| m.id).collect()
}

#[test]
fn list_query_of_everything() {
    let q = build_list_query(&FindMemo::all(), &None);
    assert_eq!(
        q.sql,
        "SELECT id, uid, created_ts, updated_ts, row_status, content, visibility, pinned, payload, location FROM memo WHERE 1=1 ORDER BY created_ts DESC"
    );
    assert!(q.args.is_empty());
}

#[test]
fn list_query_with_filters_and_paging() {
    let mut f = FindMemo::all();
    f.row_status = Some(RowStatus::Normal);
    f.visibility_list = vec![Visibility::Public, Visibility::Protected];
    f.content_contains = Some("50%_off\\".to_string());
    f.created_ts_after = Some(100);
    f.limit = Some(10);
    f.offset = Some(5);
    f.order_by_pinned = true;
    f.exclude_content = true;
    let q = build_list_query(&f, &None);
    assert_eq!(
        q.sql,
        "SELECT id, uid, created_ts, updated_ts, row_status, '' AS content, visibility, pinned, payload, location FROM memo WHERE 1=1 AND row_status = ? AND visibility IN (?,?) AND content LIKE '%' || ? || '%' ESCAPE '\\' AND created_ts >= ? ORDER BY pinned DESC, created_ts DESC LIMIT ? OFFSET ?"
    );
    assert_eq!(
        q.args,
        vec![
            text("NORMAL"),
            text("PUBLIC"),
            text("PROTECTED"),
            text("50\\%\\_off\\\\"),
            SqlValue::Integer(100),
            SqlValue::Integer(10),
            SqlValue::Integer(5)
        ]
    );
    assert_eq!(escape_like_pattern("a_b%c"), "a\\_b\\%c");
}

#[test]
fn tag_filters_read_content_and_page_afterwards() {
    let mut f = FindMemo::all();
    f.tag_search = vec!["rust".to_string()];
    f.exclude_content = true;
    f.limit = Some(1);
    f.offset = Some(1);
    f.order_by_updated_ts = true;
    f.order_by_time_asc = true;
    let q = build_list_query(&f, &None);
    assert!(q.sql.contains(" row_status, content, visibility"));
    assert!(q.sql.ends_with(" ORDER BY updated_ts ASC"));
    assert!(q.args.is_empty());

    let rows = vec![memo(1, "#rust a"), memo(2, "#go"), memo(3, "#rust #go"), memo(4, "rustacean")];
    let out = finish_list(rows, &f, &None);
    assert_eq!(ids(&out), vec![3]);
    assert!(out[0].content.is_empty());
    assert!(has_all_tags("#rust #go", &vec!["go".to_string(), "rust".to_string()]));
    assert!(!has_all_tags("#rustacean", &vec!["rust".to_string()]));
}

#[test]
fn search_queries() {
    let mut f = FindMemo::all();
    f.fts_query = Some("\"hello\"".to_string());
    let q = build_list_query(&f, &None);
    assert!(q.sql.ends_with(
        " AND id IN (SELECT rowid FROM memo_fts WHERE memo_fts MATCH ?) ORDER BY (SELECT rank FROM memo_fts WHERE rowid = memo.id)"
    ));
    assert_eq!(q.args, vec![text("\"hello\"")]);

    let mut v = FindMemo::all();
    v.vector_embedding = Some("[0.1,0.2]".to_string());
    let knn = build_knn_query(&v).unwrap();
    assert_eq!(knn.sql, "SELECT rowid FROM memo_vec WHERE embedding MATCH ? ORDER BY distance LIMIT ?");
    assert_eq!(knn.args, vec![text("[0.1,0.2]"), SqlValue::Integer(20)]);
    assert!(build_knn_query(&FindMemo::all()).is_none());

    let order = Some(vec![3, 1]);
    let q = build_list_query(&v, &order);
    assert!(q.sql.ends_with(" AND id IN (?,?) LIMIT ?"));
    assert_eq!(q.args, vec![SqlValue::Integer(3), SqlValue::Integer(1), SqlValue::Integer(20)]);
    let rows = vec![memo(1, "a"), memo(2, "b"), memo(3, "c")];
    assert_eq!(ids(&finish_list(rows, &v, &order)), vec![3, 1, 2]);
}

#[test]
fn rows_are_sorted_and_paged() {
    let rows = vec![memo(5, ""), memo(6, ""), memo(7, "")];
    assert_eq!(ids(&sort_by_order(&rows, &vec![7, 5])), vec![7, 5, 6]);
    assert_eq!(ids(&page(rows.clone(), Some(1), Some(1))), vec![6]);
    assert_eq!(ids(&page(rows.clone(), Some(-3), None)), vec![5, 6, 7]);
    assert!(page(rows.clone(), Some(3), Some(1)).is_empty());
    assert_eq!(ids(&page(rows, None, Some(-1))), vec![5, 6, 7]);
}

#[test]
fn memo_inserts_and_updates() {
    let c = CreateMemo {
        uid: "memo_1".to_string(),
        content: "hi".to_string(),
        visibility: Visibility::Public,
        pinned: true,
        payload: "{}".to_string(),
        location: None,
    };
    let q = build_create_query(&c).unwrap();
    assert_eq!(
        q.sql,
        "INSERT INTO memo (uid, content, visibility, pinned, payload, location) VALUES (?1, ?2, ?3, ?4, ?5, ?6)"
    );
    assert_eq!(
        q.args,
        vec![text("memo_1"), text("hi"), text("PUBLIC"), SqlValue::Integer(1), text("{}"), SqlValue::Null]
    );
    let bad = CreateMemo { uid: "bad uid!".to_string(), ..c };
    assert_eq!(build_create_query(&bad).unwrap_err(), CoreError::InvalidUid);
    assert_eq!(insert_error(true, "u".to_string(), "x".to_string()), CoreError::UidConflict("u".to_string()));
    assert_eq!(insert_error(false, "u".to_string(), "x".to_string()), CoreError::Db("x".to_string()));

    let u = UpdateMemo {
        id: 9,
        uid: None,
        row_status: Some(RowStatus::Archived),
        content: Some("new".to_string()),
        visibility: None,
        pinned: Some(false),
        payload: None,
        location: Some(None),
    };
    let q = build_update_query(&u, 1234).unwrap();
    assert_eq!(
        q.sql,
        "UPDATE memo SET row_status = ?, content = ?, pinned = ?, location = NULL, updated_ts = ? WHERE id = ?"
    );
    assert_eq!(
        q.args,
        vec![text("ARCHIVED"), text("new"), SqlValue::Integer(0), SqlValue::Integer(1234), SqlValue::Integer(9)]
    );
    let bad = UpdateMemo { uid: Some("".to_string()), ..u };
    assert_eq!(build_update_query(&bad, 1).unwrap_err(), CoreError::InvalidUid);
}

#[test]
fn attachment_statements() {
    let local = CreateAttachment {
        uid: "att_1".to_string(),
        filename: "a.png".to_string(),
        blob: vec![1, 2, 3],
        mime_type: "image/png".to_string(),
        memo_id: Some(4),
        storage_type: "LOCAL".to_string(),
        reference: "att_1_a.png".to_string(),
        size: None,
    };
    let q = memos::attachment::build_create_query(&local).unwrap();
    assert_eq!(
        q.args,
        vec![
            text("att_1"),
            text("a.png"),
            SqlValue::Null,
            text("image/png"),
            SqlValue::Integer(0),
            SqlValue::Integer(4),
            text("LOCAL"),
            text("att_1_a.png")
        ]
    );
    let db = CreateAttachment { storage_type: "DATABASE".to_string(), memo_id: None, ..local };
    let q = memos::attachment::build_create_query(&db).unwrap();
    assert_eq!(q.args[2], SqlValue::Blob(vec![1, 2, 3]));
    assert_eq!(q.args[4], SqlValue::Integer(3));
    assert_eq!(q.args[5], SqlValue::Null);

    let find = FindAttachment {
        id: None,
        uid: None,
        memo_id: None,
        memo_id_list: vec![1, 2],
        memo_id_is_null: false,
        limit: Some(5),
        offset: None,
        get_blob: false,
    };
    let q = memos::attachment::build_list_query(&find);
    assert_eq!(
        q.sql,
        "SELECT id, uid, created_ts, updated_ts, filename, NULL AS blob, type, size, memo_id, storage_type, reference, payload FROM attachment WHERE 1=1 AND memo_id IN (?,?) ORDER BY created_ts DESC LIMIT ?"
    );
    assert_eq!(q.args, vec![SqlValue::Integer(1), SqlValue::Integer(2), SqlValue::Integer(5)]);

    let u = UpdateAttachment { id: 3, filename: None, memo_id: Some(None), payload: None };
    let q = memos::attachment::build_update_query(&u, 77);
    assert_eq!(q.sql, "UPDATE attachment SET memo_id = ?, updated_ts = ? WHERE id = ?");
    assert_eq!(q.args, vec![SqlValue::Null, SqlValue::Integer(77), SqlValue::Integer(3)]);
}

#[test]
fn reaction_and_link_statements() {
    let u = UpsertReaction { content_id: "memos/1".to_string(), reaction_type: "👍".to_string() };
    let q = memos::reaction::build_upsert_query(&u);
    assert_eq!(q.args, vec![text("memos/1"), text("👍")]);
    let f = FindReaction { id: None, content_id: Some("memos/1".to_string()), content_id_list: Vec::new() };
    let q = memos::reaction::build_list_query(&f);
    assert!(q.sql.starts_with("SELECT id, created_ts, content_id, reaction_type FROM reaction WHERE 1=1"));
    assert_eq!(q.args, vec![text("memos/1")]);

    let link = UpsertMemoRelation { memo_id: 1, related_memo_id: 2, relation_type: MemoRelationType::Reference };
    let (q, stored) = memos::memo_relation::build_upsert_query(&link);
    assert_eq!(q.args, vec![SqlValue::Integer(1), SqlValue::Integer(2), text("REFERENCE")]);
    assert_eq!(stored.related_memo_id, 2);
    let f = FindMemoRelation {
        memo_id: Some(1),
        related_memo_id: None,
        relation_type: Some(MemoRelationType::Comment),
        memo_id_list: Vec::new(),
    };
    let q = memos::memo_relation::build_list_query(&f);
    assert!(q.sql.starts_with("SELECT memo_id, related_memo_id, type FROM memo_relation WHERE 1=1"));
    assert_eq!(q.args, vec![SqlValue::Integer(1), text("COMMENT")]);
}

#[test]
fn stored_names_read_back() {
    for s in [RowStatus::Normal, RowStatus::Archived] {
        assert_eq!(RowStatus::parse(s.as_str()), Some(s));
    }
    for v in [Visibility::Public, Visibility::Protected, Visibility::Private] {
        assert_eq!(Visibility::parse(v.as_str()), Some(v));
    }
    for t in [MemoRelationType::Reference, MemoRelationType::Comment] {
        assert_eq!(MemoRelationType::parse(t.as_str()), Some(t));
    }
    assert_eq!(RowStatus::parse("normal"), None);
    assert!(validate_uid("abc_123"));
    assert!(!validate_uid("abc-123"));
    assert!(!validate_uid(""));
    assert!(!validate_uid("-abc"));
}

#[test]
fn card_states_read_back() {
    for n in 0u8..=3 {
        assert_eq!(state_to_u8(state_from_u8(n)), n);
    }
    assert_eq!(state_from_u8(9), CardState::New);
    assert_eq!(state_from_u8(state_to_u8(CardState::Relearning)), CardState::Relearning);
    assert_eq!(rating_from_u8(1), Rating::Again);
    assert_eq!(rating_from_u8(4), Rating::Easy);
    assert_eq!(rating_from_u8(0), Rating::Good);
}

#[test]
fn frames_read_back_what_was_written() {
    let mut buf = Vec::new();
    write_frame(&mut buf, b"hello").unwrap();
    write_frame(&mut buf, b"").unwrap();
    assert_eq!(&buf[..4], &[0, 0, 0, 5]);
    let mut r = SliceReader::new(buf);
    assert_eq!(read_frame(&mut r).unwrap(), b"hello".to_vec());
    assert_eq!(read_frame(&mut r).unwrap(), Vec::<u8>::new());
    assert_eq!(read_frame(&mut r), Err(LanError::ConnectionClosed));

    let mut truncated = SliceReader::new(vec![0, 0, 0, 9, 1, 2]);
    assert_eq!(read_frame(&mut truncated), Err(LanError::ConnectionClosed));
    let mut huge = SliceReader::new(vec![2, 0, 0, 0]);
    assert_eq!(read_frame(&mut huge), Err(LanError::FrameTooLarge(0x200_0000)));
}
