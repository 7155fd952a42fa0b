use memos::sql::SqlValue;
use memos::tag::{
    tag_changes, tag_counts, tag_decrement_query, tag_increment_query, tag_insert_queries,
    TAG_DECREMENT_SQL, TAG_INCREMENT_SQL, TAG_INSERT_SQL,
};

#[test]
fn edit_reports_added_and_removed_tags() {
    let (added, removed) = tag_changes("#a #b keep", "#b #c #d");
    assert_eq!(added, vec!["c", "d"]);
    assert_eq!(removed, vec!["a"]);
}

#[test]
fn unchanged_tags_report_nothing() {
    let (added, removed) = tag_changes("#a text", "other text #a");
    assert!(added.is_empty());
    assert!(removed.is_empty());
}

#[test]
fn counts_are_memos_carrying_each_tag() {
    let contents = vec![
        "#rust #notes".to_string(),
        "#rust again #rust".to_string(),
        "no tags".to_string(),
        "#notes #go".to_string(),
    ];
    let t = tag_counts(&contents);
    assert_eq!(t.names, vec!["rust", "notes", "go"]);
    assert_eq!(t.counts, vec![2, 2, 1]);
}

#[test]
fn counts_of_nothing_are_empty() {
    let t = tag_counts(&Vec::new());
    assert!(t.names.is_empty());
    assert!(t.counts.is_empty());
}

#[test]
fn counts_follow_edits() {
    // The counts after an edit equal the old counts moved by what the edit adds and removes.
    let before = vec!["#a #b".to_string(), "#b".to_string()];
    let after = vec!["#b #c".to_string(), "#b".to_string()];
    let (added, removed) = tag_changes(&before[0], &after[0]);
    assert_eq!(added, vec!["c"]);
    assert_eq!(removed, vec!["a"]);
    let t0 = tag_counts(&before);
    let t1 = tag_counts(&after);
    assert_eq!(t0.names, vec!["a", "b"]);
    assert_eq!(t0.counts, vec![1, 2]);
    assert_eq!(t1.names, vec!["b", "c"]);
    assert_eq!(t1.counts, vec![2, 1]);
}

#[test]
fn tag_statements_bind_name_and_time() {
    let q = tag_increment_query(&"rust".to_string(), 77);
    assert_eq!(q.sql, TAG_INCREMENT_SQL);
    assert_eq!(q.args, vec![SqlValue::Text("rust".to_string()), SqlValue::Integer(77)]);
    let q = tag_decrement_query(&"go".to_string(), 5);
    assert_eq!(q.sql, TAG_DECREMENT_SQL);
    assert_eq!(q.args, vec![SqlValue::Text("go".to_string()), SqlValue::Integer(5)]);
    let t = tag_counts(&vec!["#x #y".to_string(), "#y".to_string()]);
    let qs = tag_insert_queries(&t, 9);
    assert_eq!(qs.len(), 2);
    assert_eq!(qs[1].sql, TAG_INSERT_SQL);
    assert_eq!(
        qs[1].args,
        vec![SqlValue::Text("y".to_string()), SqlValue::Integer(2), SqlValue::Integer(9)]
    );
}

#[test]
fn whitespace_agrees_with_std() {
    for c in (0u32..=0x10FFFF).filter_map(char::from_u32) {
        assert_eq!(memos::text::is_not_whitespace(c), !c.is_whitespace(), "{:?}", c);
    }
}
