use memos::chat_session::{
    clear_messages_query, create_session_query, delete_session_query, get_session_query,
    list_messages_query, listed_session, rename_outcome, rename_session_query, touch_session_query,
    MessageContent, LIST_SESSIONS_SQL,
};
use memos::error::CoreError;
use memos::sql::{statement, SqlValue};
use memos::types::MemoRelationType;

#[test]
fn memo_deletion_statements() {
    let d = memos::memo::deletion(5, Some("m5".to_string()));
    let mark = d.mark_cards.unwrap();
    assert_eq!(mark.sql, "UPDATE review_card SET memo_deleted = 1 WHERE memo_uid = ?1");
    assert_eq!(mark.args, vec![SqlValue::Text("m5".to_string())]);
    assert_eq!(d.relations.sql, "DELETE FROM memo_relation WHERE memo_id = ?1 OR related_memo_id = ?1");
    assert_eq!(d.attachments.sql, "UPDATE attachment SET memo_id = NULL WHERE memo_id = ?");
    assert_eq!(d.vector.sql, "DELETE FROM memo_vec WHERE rowid = ?");
    assert_eq!(d.memo.sql, "DELETE FROM memo WHERE id = ?");
    assert_eq!(d.memo.args, vec![SqlValue::Integer(5)]);
    assert!(memos::memo::deletion(5, None).mark_cards.is_none());
    assert_eq!(memos::memo::uid_query(5).sql, "SELECT uid FROM memo WHERE id = ?");
    assert!(memos::memo::deletion_outcome(1, 5).is_ok());
    assert_eq!(
        memos::memo::deletion_outcome(0, 5),
        Err(CoreError::NotFound("memo id=5".to_string()))
    );
}

#[test]
fn other_deletions() {
    assert_eq!(
        memos::attachment::stored_file_query(3).sql,
        "SELECT storage_type, reference FROM attachment WHERE id = ?"
    );
    assert_eq!(memos::attachment::delete_query(3).args, vec![SqlValue::Integer(3)]);
    let stored = Some(("LOCAL".to_string(), "a.png".to_string()));
    assert_eq!(memos::attachment::deletion_outcome(1, 3, stored.clone()), Ok(stored));
    assert_eq!(
        memos::attachment::deletion_outcome(0, 3, None),
        Err(CoreError::NotFound("attachment id=3".to_string()))
    );

    assert_eq!(memos::reaction::delete_query(8).sql, "DELETE FROM reaction WHERE id = ?");
    assert_eq!(
        memos::reaction::deletion_outcome(0, 8),
        Err(CoreError::NotFound("reaction id=8".to_string()))
    );

    let q = memos::memo_relation::delete_query(1, 2, MemoRelationType::Comment);
    assert_eq!(
        q.sql,
        "DELETE FROM memo_relation WHERE memo_id = ?1 AND related_memo_id = ?2 AND type = ?3"
    );
    assert_eq!(
        q.args,
        vec![SqlValue::Integer(1), SqlValue::Integer(2), SqlValue::Text("COMMENT".to_string())]
    );
    assert_eq!(
        memos::memo_relation::deletion_outcome(0, 1, 2),
        Err(CoreError::NotFound("memo_relation 1->2".to_string()))
    );
    assert!(memos::memo_relation::deletion_outcome(1, 1, 2).is_ok());
}

#[test]
fn session_statements() {
    let c = create_session_query("Chat", None, 100);
    assert!(c.sql.starts_with("INSERT INTO chat_session (title, provider_id, created_ts, updated_ts)"));
    assert_eq!(
        c.args,
        vec![SqlValue::Text("Chat".to_string()), SqlValue::Null, SqlValue::Integer(100)]
    );
    let c = create_session_query("Chat", Some("p1".to_string()), 100);
    assert_eq!(c.args[1], SqlValue::Text("p1".to_string()));
    assert!(get_session_query(4).sql.ends_with("FROM chat_session WHERE id = ?1"));
    assert!(LIST_SESSIONS_SQL.contains("m.role != 'tool'"));
    let r = rename_session_query(4, "New", 200);
    assert_eq!(
        r.args,
        vec![SqlValue::Text("New".to_string()), SqlValue::Integer(200), SqlValue::Integer(4)]
    );
    assert_eq!(rename_outcome(0, 4), Err(CoreError::NotFound("session id=4".to_string())));
    assert!(rename_outcome(1, 4).is_ok());
    assert_eq!(delete_session_query(4).sql, "DELETE FROM chat_session WHERE id = ?1");
    assert_eq!(
        touch_session_query(4, 300).args,
        vec![SqlValue::Integer(300), SqlValue::Integer(4)]
    );
    assert!(list_messages_query(4).sql.ends_with("ORDER BY seq ASC"));
    assert_eq!(clear_messages_query(4).sql, "DELETE FROM chat_message WHERE session_id = ?1");

    let long = "x".repeat(70);
    let s = listed_session(1, "t".to_string(), None, 1, 2, 3, Some(MessageContent::Text(long)));
    assert_eq!(s.message_count, Some(3));
    assert_eq!(s.preview.unwrap(), format!("{}...", "x".repeat(60)));
    let s = listed_session(1, "t".to_string(), None, 1, 2, 0, None);
    assert!(s.preview.is_none());
    let parts = MessageContent::Parts(vec![Some("a".to_string()), None, Some("b".to_string())]);
    let s = listed_session(1, "t".to_string(), None, 1, 2, 2, Some(parts));
    assert_eq!(s.preview.as_deref(), Some("a b"));
}

#[test]
fn statements_keep_text_and_arguments() {
    let q = statement("SELECT 1", vec![SqlValue::Integer(1)]);
    assert_eq!(q.sql, "SELECT 1");
    assert_eq!(q.args, vec![SqlValue::Integer(1)]);
}

#[test]
fn small_statements_and_errors() {
    let q = memos::chat_session::next_seq_query(3);
    assert_eq!(q.sql, "SELECT COALESCE(MAX(seq), 0) + 1 FROM chat_message WHERE session_id = ?1");
    assert_eq!(q.args, vec![SqlValue::Integer(3)]);
    assert_eq!(
        memos::chat_session::created_session_missing(),
        CoreError::Other("刚创建的 session 不存在".to_string())
    );
    assert_eq!(
        memos::review_store::created_deck_missing(),
        CoreError::Other("刚创建的 deck 不存在".to_string())
    );
    assert_eq!(memos::reaction::upserted_missing(), CoreError::NotFound("reaction".to_string()));
}
