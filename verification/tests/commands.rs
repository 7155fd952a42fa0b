use memos::review_store::{
        create_deck_query, deck_from_row, deck_update_outcome, get_deck_query, list_decks_query,
        update_deck_query,
    };
use memos::review_store::{
        delete_card_queries, delete_deck_queries, list_due_cards_query, mark_memo_deleted_query,
        review_timestamps_query, total_due_query,
    };
use memos::attachment::Attachment;
use memos::commands::{
    attachment_not_found, attachment_to_create, database_size, deletes_local_file, embedding_sync,
    instance_stats, missing_blob, ping_message, requested_storage, should_store_embedding,
    sync_after_create, sync_after_update, thumbnail_allowed, thumbnail_answer, thumbnail_size,
    with_separate_blob, CreateAttachmentRequest, EmbeddingSync, Timestamp, DELETE_MEMO_VEC,
    INSERT_MEMO_VEC,
};
use memos::error::{CoreError, IpcError};
use memos::file_storage::{
    file_exists_error, missing_file_error, outside_dir_error, unresolved_dir_error,
};
use memos::setting::{
    check_storage_config, setting_delete_query, setting_get_query, setting_not_found,
    setting_upsert_query, settle_setting_read, SettingTable, StorageConfig,
};
use memos::sql::SqlValue;
use memos::types::RowStatus;

fn storage(kind: &str, template: &str) -> StorageConfig {
    StorageConfig {
        storage_type: kind.to_string(),
        local_storage_path: "attachments".to_string(),
        filepath_template: template.to_string(),
        auto_threshold: 1024,
    }
}

#[test]
fn storage_config_is_checked() {
    let ok = check_storage_config(storage("AUTO", "  assets/{uuid}_{filename} ")).unwrap();
    assert_eq!(ok.filepath_template, "assets/{uuid}_{filename}");
    assert_eq!(ok.storage_type, "AUTO");
    assert_eq!(ok.auto_threshold, 1024);
    assert_eq!(
        check_storage_config(storage("AUTO", "   ")).unwrap_err(),
        IpcError::BadRequest("文件名模板不能为空".to_string())
    );
    assert_eq!(
        check_storage_config(storage("LOCAL", "../{uid}")).unwrap_err(),
        IpcError::BadRequest("文件名模板包含非法路径".to_string())
    );
}

#[test]
fn setting_statements() {
    let q = setting_get_query(SettingTable::App, "theme");
    assert_eq!(q.sql, "SELECT value FROM app_setting WHERE key = ?");
    assert_eq!(q.args, vec![SqlValue::Text("theme".to_string())]);
    let q = setting_get_query(SettingTable::Instance, "storage_config");
    assert_eq!(q.sql, "SELECT value FROM instance_setting WHERE name = ?");

    let q = setting_upsert_query(SettingTable::App, "theme", "dark", "ignored");
    assert!(q.sql.starts_with("INSERT INTO app_setting (key, value)"));
    assert_eq!(
        q.args,
        vec![SqlValue::Text("theme".to_string()), SqlValue::Text("dark".to_string())]
    );
    let q = setting_upsert_query(SettingTable::Instance, "n", "v", "d");
    assert!(q.sql.contains("description=excluded.description"));
    assert_eq!(q.args.len(), 3);
    assert_eq!(q.args[2], SqlValue::Text("d".to_string()));

    let q = setting_delete_query(SettingTable::Instance, "n");
    assert_eq!(q.sql, "DELETE FROM instance_setting WHERE name = ?");
    assert_eq!(setting_not_found("theme"), CoreError::NotFound("setting theme".to_string()));
}

#[test]
fn setting_reads_go_through_the_cache() {
    assert_eq!(
        settle_setting_read(Some("a".to_string()), Some("b".to_string())),
        (Some("a".to_string()), false)
    );
    assert_eq!(settle_setting_read(None, Some("b".to_string())), (Some("b".to_string()), true));
    assert_eq!(settle_setting_read(None, None), (None, false));
}

#[test]
fn stats_of_the_instance() {
    let s = instance_stats(1_700_000_000, 4096, 10);
    assert_eq!(s.generated_time, Timestamp { seconds: 1_700_000_000, nanos: 0 });
    assert_eq!(s.database.driver, "SQLite");
    assert_eq!(s.database.size_bytes, 4096);
    assert_eq!(s.local_storage_bytes, 10);
    assert_eq!(database_size(10, 4096), Some(40960));
    assert_eq!(database_size(i64::MAX, 2), None);
}

fn request(blob: Vec<u8>, storage_type: Option<&str>) -> CreateAttachmentRequest {
    CreateAttachmentRequest {
        uid: "att1".to_string(),
        filename: "a.png".to_string(),
        blob,
        mime_type: "image/png".to_string(),
        memo_id: Some(3),
        storage_type: storage_type.map(|s| s.to_string()),
    }
}

#[test]
fn attachments_are_stored_where_asked() {
    let cfg = storage("AUTO", "{uid}_{filename}");
    assert_eq!(requested_storage(&Some("LOCAL".to_string()), &cfg, 1), "LOCAL");
    assert_eq!(requested_storage(&Some("other".to_string()), &cfg, 5000), "DATABASE");
    assert_eq!(requested_storage(&None, &cfg, 5000), "LOCAL");
    assert_eq!(requested_storage(&None, &cfg, 10), "DATABASE");

    let local = attachment_to_create(request(vec![1, 2, 3], None), "LOCAL", "att1_a.png".to_string());
    assert!(local.blob.is_empty());
    assert_eq!(local.reference, "att1_a.png");
    assert_eq!(local.size, Some(3));
    assert_eq!(local.storage_type, "LOCAL");
    let db = attachment_to_create(request(vec![1, 2, 3], None), "DATABASE", "ignored".to_string());
    assert_eq!(db.blob, vec![1, 2, 3]);
    assert!(db.reference.is_empty());
    assert_eq!(db.memo_id, Some(3));

    assert!(deletes_local_file("LOCAL", "x.bin"));
    assert!(!deletes_local_file("LOCAL", ""));
    assert!(!deletes_local_file("DATABASE", "x.bin"));
    assert_eq!(attachment_not_found(-4), IpcError::NotFound("attachment id=-4".to_string()));
    assert_eq!(missing_blob(), IpcError::Internal("DATABASE 附件缺少 blob".to_string()));
}

#[test]
fn blobs_are_split_off() {
    let a = Attachment {
        id: 1,
        uid: "u".to_string(),
        created_ts: 1,
        updated_ts: 2,
        filename: "f".to_string(),
        blob: Some(vec![9, 8]),
        mime_type: "image/png".to_string(),
        size: 2,
        memo_id: None,
        storage_type: "DATABASE".to_string(),
        reference: String::new(),
        payload: "{}".to_string(),
    };
    let w = with_separate_blob(a);
    assert_eq!(w.blob, Some(vec![9, 8]));
    assert!(w.attachment.blob.is_none());
    assert_eq!(w.attachment.uid, "u");
}

#[test]
fn thumbnails_are_answered() {
    assert!(thumbnail_allowed("image/png").is_ok());
    assert_eq!(
        thumbnail_allowed("application/pdf").unwrap_err(),
        IpcError::BadRequest("附件类型不支持缩略图: application/pdf".to_string())
    );
    assert_eq!(thumbnail_size(None), 512);
    assert_eq!(thumbnail_size(Some(128)), 128);
    let t = thumbnail_answer(Some(vec![1])).unwrap();
    assert_eq!(t.mime_type, "image/jpeg");
    assert_eq!(t.blob, vec![1]);
    assert_eq!(
        thumbnail_answer(None).unwrap_err(),
        IpcError::NotFound("原图过小，无需缩略图".to_string())
    );
}

#[test]
fn embeddings_follow_normal_memos() {
    assert!(should_store_embedding(RowStatus::Normal));
    assert!(!should_store_embedding(RowStatus::Archived));
    assert_eq!(embedding_sync(RowStatus::Normal), EmbeddingSync::Upsert);
    assert_eq!(embedding_sync(RowStatus::Archived), EmbeddingSync::Delete);
    assert!(sync_after_create(None));
    assert!(!sync_after_create(Some(1)));
    assert!(sync_after_update(&Some("x".to_string()), None, None));
    assert!(sync_after_update(&None, Some(RowStatus::Archived), None));
    assert!(!sync_after_update(&None, None, None));
    assert!(!sync_after_update(&Some("x".to_string()), None, Some(2)));
    assert_eq!(DELETE_MEMO_VEC, "DELETE FROM memo_vec WHERE rowid = ?");
    assert_eq!(INSERT_MEMO_VEC, "INSERT INTO memo_vec(rowid, embedding) VALUES (?, ?)");
}

#[test]
fn health_check_answers() {
    assert_eq!(ping_message(Ok(3)), "Store 就绪，当前 memo 数: 3");
    assert_eq!(
        ping_message(Err(CoreError::Db("locked".to_string()))),
        "Store 错误: 数据库错误: locked"
    );
}

#[test]
fn file_errors() {
    assert_eq!(
        file_exists_error(&"u_a.txt".to_string()),
        IpcError::BadRequest("文件已存在: u_a.txt".to_string())
    );
    assert_eq!(
        missing_file_error("x.bin", "No such file"),
        IpcError::NotFound("附件文件不存在: x.bin (No such file)".to_string())
    );
    assert_eq!(
        unresolved_dir_error(&"denied".to_string()),
        IpcError::Internal("无法规范化附件目录: denied".to_string())
    );
    assert_eq!(outside_dir_error(), IpcError::BadRequest("非法的附件路径".to_string()));
}

#[test]
fn deck_statements_store_tags_as_json() {
    let tags = vec!["rust".to_string(), "a\"i".to_string()];
    let q = create_deck_query("Deck", &tags, 3).unwrap();
    assert_eq!(q.sql, "INSERT INTO review_deck (name, tags, cards_per_memo) VALUES (?1, ?2, ?3)");
    assert_eq!(
        q.args,
        vec![
            SqlValue::Text("Deck".to_string()),
            SqlValue::Text("[\"rust\",\"a\\\"i\"]".to_string()),
            SqlValue::Integer(3)
        ]
    );
    let u = update_deck_query(7, "D2", &vec![], 2).unwrap();
    assert_eq!(u.args[1], SqlValue::Text("[]".to_string()));
    assert_eq!(u.args[3], SqlValue::Integer(7));
    assert!(get_deck_query(7).sql.ends_with("FROM review_deck WHERE id = ?1"));
    assert!(list_decks_query().sql.ends_with("ORDER BY created_ts DESC"));

    let d = deck_from_row(1, "n".to_string(), "[\"x\",\"y\"]", 2, 10, None, 4);
    assert_eq!(d.tags, vec!["x".to_string(), "y".to_string()]);
    assert_eq!(d.memo_count, 4);
    let bad = deck_from_row(1, "n".to_string(), "not json", 2, 10, Some(11), 0);
    assert!(bad.tags.is_empty());
    assert_eq!(bad.last_reviewed_ts, Some(11));

    assert!(deck_update_outcome(1, 5).is_ok());
    assert_eq!(deck_update_outcome(0, 5), Err(CoreError::NotFound("deck id=5".to_string())));
}

#[test]
fn card_statements() {
    let d = delete_deck_queries(2, &vec![10, 11]);
    assert_eq!(d.len(), 4);
    assert_eq!(d[0].sql, "DELETE FROM review_record WHERE card_id = ?1");
    assert_eq!(d[1].args, vec![SqlValue::Integer(11)]);
    assert_eq!(d[2].sql, "DELETE FROM review_card WHERE deck_id = ?1");
    assert_eq!(d[3].sql, "DELETE FROM review_deck WHERE id = ?1");
    assert_eq!(d[3].args, vec![SqlValue::Integer(2)]);
    let c = delete_card_queries(9);
    assert_eq!(c[1].sql, "DELETE FROM review_card WHERE id = ?1");
    let due = list_due_cards_query(2, 100, 50);
    assert!(due.sql.contains("WHERE deck_id = ?1 AND due <= ?2 AND memo_deleted = 0"));
    assert_eq!(due.args, vec![SqlValue::Integer(2), SqlValue::Integer(100), SqlValue::Integer(50)]);
    assert_eq!(
        mark_memo_deleted_query("m1").args,
        vec![SqlValue::Text("m1".to_string())]
    );
    assert_eq!(total_due_query(5).args, vec![SqlValue::Integer(5)]);
    assert!(review_timestamps_query().args.is_empty());
}
