use memos::attachment_url::served_body;
use memos::commands::make_thumbnail;
use memos::document::{convert_document, Converted};
use memos::error::IpcError;
use memos::thumbnail::generate_thumbnail;
use std::io::Cursor;

fn make_png(width: u32, height: u32) -> Vec<u8> {
    let img = image::RgbaImage::new(width, height);
    let mut buf = Cursor::new(Vec::new());
    image::DynamicImage::ImageRgba8(img)
        .write_to(&mut buf, image::ImageFormat::Png)
        .unwrap();
    buf.into_inner()
}

fn dimensions(bytes: &[u8]) -> (u32, u32, Option<image::ImageFormat>) {
    let reader = image::ImageReader::new(Cursor::new(bytes)).with_guessed_format().unwrap();
    let format = reader.format();
    let img = reader.decode().unwrap();
    (img.width(), img.height(), format)
}

#[test]
fn non_image_returns_none() {
    let result = generate_thumbnail(b"not an image", "application/pdf", 256).unwrap();
    assert!(result.is_none());
}

#[test]
fn small_image_returns_none() {
    let png = make_png(64, 64);
    let result = generate_thumbnail(&png, "image/png", 256).unwrap();
    assert!(result.is_none(), "小于 MIN_ORIGINAL_SIZE 的图片不应生成缩略图");
}

#[test]
fn large_image_generates_thumbnail() {
    let png = make_png(1024, 768);
    let result = generate_thumbnail(&png, "image/png", 256).unwrap();
    assert!(result.is_some(), "大图应生成缩略图");
    let bytes = result.unwrap();
    assert!(!bytes.is_empty());

    let (w, h, _) = dimensions(&bytes);
    assert!(w <= 256);
    assert!(h <= 256);
}

#[test]
fn thumbnail_keeps_aspect_and_is_jpeg() {
    let png = make_png(1024, 768);
    let bytes = generate_thumbnail(&png, "image/png", 256).unwrap().unwrap();
    let (w, h, format) = dimensions(&bytes);
    assert_eq!((w, h), (256, 192));
    assert_eq!(format, Some(image::ImageFormat::Jpeg));
}

#[test]
fn shorter_side_decides_not_longer() {
    // 1000 x 100: the shorter side is below the minimum
    let png = make_png(1000, 100);
    assert!(generate_thumbnail(&png, "image/png", 256).unwrap().is_none());
    // exactly the minimum is enough
    let png = make_png(128, 128);
    assert!(generate_thumbnail(&png, "image/png", 64).unwrap().is_some());
}

#[test]
fn unreadable_image_is_an_error() {
    let err = generate_thumbnail(b"not an image", "image/png", 256).unwrap_err();
    assert_eq!(err, "无法确定图片格式");
}

#[test]
fn thumbnail_command_refuses_unsupported_type() {
    match make_thumbnail(b"<svg/>", "image/svg+xml", None) {
        Err(IpcError::BadRequest(m)) => assert_eq!(m, "附件类型不支持缩略图: image/svg+xml"),
        other => panic!("unexpected {:?}", other),
    }
}

#[test]
fn thumbnail_command_small_image_not_found() {
    let png = make_png(64, 64);
    match make_thumbnail(&png, "image/png", Some(32)) {
        Err(IpcError::NotFound(m)) => assert_eq!(m, "原图过小，无需缩略图"),
        other => panic!("unexpected {:?}", other),
    }
}

#[test]
fn thumbnail_command_default_size() {
    let png = make_png(1024, 1024);
    let t = make_thumbnail(&png, "image/png", None).unwrap();
    assert_eq!(t.mime_type, "image/jpeg");
    let (w, h, _) = dimensions(&t.blob);
    assert_eq!((w, h), (512, 512));
}

#[test]
fn thumbnail_command_given_size() {
    let png = make_png(400, 200);
    let t = make_thumbnail(&png, "image/png", Some(100)).unwrap();
    let (w, h, _) = dimensions(&t.blob);
    assert_eq!((w, h), (100, 50));
}

#[test]
fn thumbnail_command_unreadable_is_internal() {
    match make_thumbnail(b"garbage", "image/jpeg", None) {
        Err(IpcError::Internal(m)) => assert_eq!(m, "无法确定图片格式"),
        other => panic!("unexpected {:?}", other),
    }
}

#[test]
fn served_body_without_thumbnail_is_original() {
    let png = make_png(1024, 768);
    let (body, ty) = served_body(png.clone(), "image/png", false);
    assert_eq!(body, png);
    assert_eq!(ty, "image/png");
}

#[test]
fn served_body_with_thumbnail_is_jpeg() {
    let png = make_png(1024, 768);
    let (body, ty) = served_body(png.clone(), "image/png", true);
    assert_eq!(ty, "image/jpeg");
    assert_ne!(body, png);
    let (w, h, _) = dimensions(&body);
    assert_eq!((w, h), (512, 384));
}

#[test]
fn served_body_falls_back_for_small_or_unreadable() {
    let png = make_png(64, 64);
    let (body, ty) = served_body(png.clone(), "image/png", true);
    assert_eq!(body, png);
    assert_eq!(ty, "image/png");
    let (body, ty) = served_body(b"zzz".to_vec(), "image/gif", true);
    assert_eq!(body, b"zzz".to_vec());
    assert_eq!(ty, "image/gif");
    let (body, ty) = served_body(b"%PDF".to_vec(), "application/pdf", true);
    assert_eq!(body, b"%PDF".to_vec());
    assert_eq!(ty, "application/pdf");
}

#[test]
fn convert_unsupported_is_skipped() {
    match convert_document(b"hello", "notes.txt".to_string()) {
        Converted::Done(d) => {
            assert_eq!(d.kind, "skipped");
            assert_eq!(d.markdown, "");
        }
        other => panic!("unexpected {:?}", other),
    }
}

#[test]
fn convert_csv_needs_summary() {
    match convert_document(b"name,qty\napple,3\n", "fruit.csv".to_string()) {
        Converted::NeedsSummary { filename, truncated } => {
            assert_eq!(filename, "fruit.csv");
            assert!(truncated.contains("apple,3"));
            assert!(truncated.contains("name,qty"));
        }
        other => panic!("unexpected {:?}", other),
    }
}

#[test]
fn convert_blank_csv_is_skipped() {
    match convert_document(b"", "empty.csv".to_string()) {
        Converted::Done(d) => assert_eq!(d.kind, "skipped"),
        other => panic!("unexpected {:?}", other),
    }
}

#[test]
fn convert_office_and_archive_go_to_host() {
    for (name, ext) in [
        ("slides.PPTX", ".pptx"),
        ("report.docx", ".docx"),
        ("bundle.zip", ".zip"),
        ("scan.pdf", ".pdf"),
        ("page.html", ".html"),
        ("sheet.xlsx", ".xlsx"),
        ("feed.rss", ".rss"),
    ] {
        match convert_document(b"PK", name.to_string()) {
            Converted::HostConversion { filename, extension, .. } => {
                assert_eq!(filename, name);
                assert_eq!(extension, ext);
            }
            other => panic!("unexpected {:?}", other),
        }
    }
}

#[test]
fn convert_old_office_formats_skip_without_converter() {
    match convert_document(b"\xd0\xcf\x11\xe0", "memo.doc".to_string()) {
        Converted::Done(d) => assert_eq!(d.kind, "skipped"),
        other => panic!("unexpected {:?}", other),
    }
}
