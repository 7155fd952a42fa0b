use memos::import_export::{import_plan, select_imports, ImportMemoRecord};
use memos::lan::protocol::{read_frame, SliceReader};
use memos::lan::LanError;
use memos::reaction::{upsert_lookup, upserted_reaction, Reaction, UpsertReaction};
use memos::review::{chosen_drafts, CardDraft};
use memos::error::CoreError;
use memos::types::Visibility;

fn reaction(id: i32, kind: &str) -> Reaction {
    Reaction { id, created_ts: 100 + id as i64, content_id: "memos/1".to_string(), reaction_type: kind.to_string() }
}

#[test]
fn upsert_answers_first_reaction_read_back() {
    let u = UpsertReaction { content_id: "memos/1".to_string(), reaction_type: "👍".to_string() };
    let f = upsert_lookup(&u);
    assert_eq!(f.id, None);
    assert_eq!(f.content_id.as_deref(), Some("memos/1"));
    assert!(f.content_id_list.is_empty());
    let r = upserted_reaction(vec![reaction(3, "❤️"), reaction(7, "👍")]).unwrap();
    assert_eq!(r.id, 3);
    assert_eq!(r.reaction_type, "❤️");
    match upserted_reaction(Vec::new()) {
        Err(CoreError::NotFound(m)) => assert_eq!(m, "reaction"),
        other => panic!("unexpected {:?}", other),
    }
}

fn draft(front: &str) -> CardDraft {
    CardDraft {
        memo_uid: "m1".to_string(),
        card_type: "qa".to_string(),
        front: front.to_string(),
        back: "b".to_string(),
        cloze_answer: None,
        angle: None,
    }
}

#[test]
fn drafts_prefer_whole_answer_then_span() {
    let r = chosen_drafts(Some(vec![draft("whole")]), Some(vec![draft("span")]));
    assert_eq!(r.len(), 1);
    assert_eq!(r[0].front, "whole");
    let r = chosen_drafts(None, Some(vec![draft("span"), draft("two")]));
    assert_eq!(r.len(), 2);
    assert_eq!(r[0].front, "span");
    assert!(chosen_drafts(None, None).is_empty());
}

#[test]
fn truncated_frames_close_the_connection() {
    let mut r = SliceReader::new(vec![0u8, 0]);
    assert_eq!(read_frame(&mut r), Err(LanError::ConnectionClosed));
    let mut r = SliceReader::new(vec![0u8, 0, 0, 5, 1, 2]);
    assert_eq!(read_frame(&mut r), Err(LanError::ConnectionClosed));
}

fn record(uid: &str) -> ImportMemoRecord {
    ImportMemoRecord {
        uid: Some(uid.to_string()),
        content: uid.to_string(),
        visibility: Visibility::Private,
        pinned: false,
        payload: "{}".to_string(),
        location: None,
        created_ts: None,
        row_status: None,
    }
}

#[test]
fn batch_imports_only_new_uids_once() {
    let plans = vec![
        import_plan(record("a"), "g1".to_string()),
        import_plan(record("b"), "g2".to_string()),
        import_plan(record("a"), "g3".to_string()),
        import_plan(record("c"), "g4".to_string()),
    ];
    let chosen = select_imports(plans, &vec![false, true, false, false]);
    let uids: Vec<&str> = chosen.iter().map(|p| p.create.uid.as_str()).collect();
    assert_eq!(uids, vec!["a", "c"]);
}
