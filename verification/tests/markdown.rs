use memos::markdown::{extract_all, extract_mentions, extract_tags, generate_snippet, render_html};

#[test]
fn extract_tags_basic() {
    let data = extract_all("Hello #tag and #another");
    assert_eq!(data.tags, vec!["tag", "another"]);
}

#[test]
fn extract_tags_ignore_heading() {
    let data = extract_all("# Heading\n\nText with #tag");
    assert_eq!(data.tags, vec!["tag"]);
}

#[test]
fn extract_tags_unicode() {
    let data = extract_all("标签 #中文标签 #emoji_🎉");
    assert!(data.tags.contains(&"中文标签".to_string()));
}

#[test]
fn extract_tags_dedup() {
    let data = extract_all("#tag #tag #tag");
    assert_eq!(data.tags, vec!["tag"]);
}

#[test]
fn extract_tags_slash() {
    let data = extract_all("#tag1/subtag");
    assert_eq!(data.tags, vec!["tag1/subtag"]);
}

#[test]
fn extract_mentions_basic() {
    let data = extract_all("Hi @alice and @bob");
    assert_eq!(data.mentions, vec!["alice", "bob"]);
}

#[test]
fn extract_mentions_exclude_email() {
    let data = extract_all("Email support@example.com @real");
    assert_eq!(data.mentions, vec!["real"]);
}

#[test]
fn extract_mentions_at_line_start() {
    let data = extract_all("@alice\n@bob");
    assert_eq!(data.mentions, vec!["alice", "bob"]);
}

#[test]
fn render_html_basic() {
    let html = render_html("**bold** and _italic_");
    assert!(html.contains("<strong>bold</strong>"));
    assert!(html.contains("<em>italic</em>"));
}

#[test]
fn render_html_table() {
    let md = "| a | b |\n|---|---|\n| 1 | 2 |";
    let html = render_html(md);
    assert!(html.contains("<table>"));
}

#[test]
fn snippet_truncates() {
    let s = generate_snippet("This is a long sentence that should be truncated", 10);
    assert!(s.ends_with('…'));
}

#[test]
fn snippet_short_unchanged() {
    let s = generate_snippet("short", 100);
    assert_eq!(s, "short");
}

#[test]
fn tags_are_distinct_and_well_formed() {
    // `##` is skipped one `#` at a time, so the second `#` of `##h` starts a tag.
    let tags = extract_tags("#a #b #a ##h # x #");
    assert_eq!(tags, vec!["a", "b", "h"]);
}

#[test]
fn tag_length_is_capped() {
    let long = "x".repeat(150);
    let tags = extract_tags(&format!("#{long}"));
    assert_eq!(tags.len(), 1);
    assert_eq!(tags[0].chars().count(), 100);
}

#[test]
fn mention_needs_a_letter_or_digit() {
    assert!(extract_mentions("@-- @").is_empty());
    assert_eq!(extract_mentions("(@x-1) @x-1"), vec!["x-1"]);
}

#[test]
fn mention_length_is_capped() {
    let long = "m".repeat(40);
    let ms = extract_mentions(&format!("@{long}"));
    assert_eq!(ms[0].chars().count(), 32);
}

#[test]
fn snippet_strips_markers_and_collapses() {
    let s = generate_snippet("# Title\n\n- item one\r\n> quote   here\n", 100);
    assert_eq!(s, "Title item one quote here");
    let t = generate_snippet("abcdef", 3);
    assert_eq!(t, "abc…");
}
