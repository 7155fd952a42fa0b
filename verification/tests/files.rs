use memos::document::{classify_document, conversion_outcome, extract_extension, summary_markdown, Converted, DocumentKind};
use memos::file_storage::{plan_file_path, render_template, sanitize_filename, simple_uuid};
use memos::setting::{resolve_storage_type, StorageConfig};
use memos::thumbnail::{is_image_type, is_thumbnailable_image, large_enough};

#[test]
fn extract_ext_pdf() {
    assert_eq!(extract_extension("report.PDF"), "pdf");
    assert_eq!(extract_extension("doc.docx"), "docx");
    assert_eq!(extract_extension("archive.ZIP"), "zip");
}

#[test]
fn extract_ext_no_ext() {
    assert_eq!(extract_extension("noext"), "");
    assert_eq!(extract_extension(""), "");
}

#[test]
fn extract_ext_multiple_dots() {
    assert_eq!(extract_extension("my.report.final.pdf"), "pdf");
}

#[test]
fn sanitize_handles_special_chars() {
    assert_eq!(sanitize_filename("hello.txt"), "hello.txt");
    assert_eq!(sanitize_filename("a/b\\c"), "a_b_c");
    assert_eq!(sanitize_filename(".hidden"), "_.hidden");
    assert_eq!(sanitize_filename(""), "_");
    assert_eq!(sanitize_filename("中文.png"), "中文.png");
}

#[test]
fn write_rejects_traversal_template() {
    let result = plan_file_path("../escape.txt", "uid4", "evil.txt", 1, "u");
    assert!(result.is_err(), "应拒绝路径穿越模板");
}

#[test]
fn template_default_and_variables() {
    assert_eq!(plan_file_path("  ", "uid1", "test.txt", 0, "x").unwrap(), "uid1_test.txt");
    assert_eq!(
        render_template("assets/{timestamp}_{uuid}_{filename}", "u", "a b.pdf", 1700000000, "abc"),
        "assets/1700000000_abc_a_b.pdf"
    );
}

#[test]
fn uuid_is_zero_padded_hex() {
    assert_eq!(simple_uuid(0x1a, 0xb, 2), "0000001a0000b002");
}

#[test]
fn is_thumbnailable_recognizes_common_types() {
    assert!(is_thumbnailable_image("image/png"));
    assert!(is_thumbnailable_image("image/jpeg"));
    assert!(is_thumbnailable_image("image/webp"));
    assert!(!is_thumbnailable_image("image/svg+xml"));
    assert!(!is_thumbnailable_image("application/pdf"));
}

#[test]
fn thumbnail_size_rules() {
    assert!(is_image_type("image/png"));
    assert!(!is_image_type("application/pdf"));
    assert!(!large_enough(64, 256));
    assert!(large_enough(1024, 768));
}

#[test]
fn storage_type_by_size() {
    let mut cfg = StorageConfig::default_config();
    assert_eq!(resolve_storage_type(&cfg, 10), "DATABASE");
    assert_eq!(resolve_storage_type(&cfg, 1048576), "LOCAL");
    cfg.storage_type = "DATABASE".to_string();
    assert_eq!(resolve_storage_type(&cfg, 1 << 30), "DATABASE");
}

#[test]
fn document_outcomes() {
    assert_eq!(classify_document("a.ZIP"), DocumentKind::Archive);
    assert_eq!(classify_document("a.pdf"), DocumentKind::Document);
    assert_eq!(classify_document("a.png"), DocumentKind::Unsupported);
    match conversion_outcome(DocumentKind::Document, "r.pdf".into(), Some("  ".into())) {
        Converted::Done(d) => assert_eq!(d.kind, "skipped"),
        _ => panic!("blank text is skipped"),
    }
    match conversion_outcome(DocumentKind::Archive, "a.zip".into(), Some("x/".into())) {
        Converted::Done(d) => {
            assert_eq!(d.kind, "structure");
            assert_eq!(d.markdown, "## 🗜️ a.zip 文件结构\n\n```text\nx/\n```");
        }
        _ => panic!("archives show their structure"),
    }
    let long = "y".repeat(7000);
    match conversion_outcome(DocumentKind::Document, "r.pdf".into(), Some(long)) {
        Converted::NeedsSummary { truncated, .. } => assert_eq!(truncated.chars().count(), 6000),
        _ => panic!("documents are summarised"),
    }
    assert_eq!(summary_markdown("r.pdf", "  ok \n"), "## 📄 r.pdf 摘要\n\nok");
}
