//! Thumbnails: which attachments get one and when an image is large enough.
use crate::text::{chars_of, str_equals};
use image::imageops::FilterType;
use image::{ImageFormat, ImageReader};
use std::io::Cursor;
use vstd::prelude::*;

verus! {

/// Default longest side of a thumbnail, in pixels.
pub const DEFAULT_THUMBNAIL_SIZE: u32 = 512;

/// Images whose shorter side is below this get no thumbnail.
pub const MIN_ORIGINAL_SIZE: u32 = 128;

/// The image types thumbnails are made for.
pub open spec fn thumbnailable(mime: Seq<char>) -> bool {
    mime == "image/png"@ || mime == "image/jpeg"@ || mime == "image/jpg"@ || mime
        == "image/webp"@ || mime == "image/gif"@
}

/// Whether thumbnails are made for this MIME type (PNG, JPEG, WebP and GIF images).
pub fn is_thumbnailable_image(mime_type: &str) -> (r: bool)
    ensures
        r == thumbnailable(mime_type@),
{
    str_equals(mime_type, "image/png") || str_equals(mime_type, "image/jpeg") || str_equals(
        mime_type,
        "image/jpg",
    ) || str_equals(mime_type, "image/webp") || str_equals(mime_type, "image/gif")
}

/// Whether the MIME type names an image (`image/...`).
pub open spec fn is_image_mime(mime: Seq<char>) -> bool {
    mime.len() >= 6 && mime.take(6) == "image/"@
}

/// Every type thumbnails are made for is an `image/...` type.
pub proof fn lemma_thumbnailable_is_image(mime: Seq<char>)
    requires
        thumbnailable(mime),
    ensures
        is_image_mime(mime),
{
    reveal_strlit("image/png");
    reveal_strlit("image/jpeg");
    reveal_strlit("image/jpg");
    reveal_strlit("image/webp");
    reveal_strlit("image/gif");
    reveal_strlit("image/");
    assert(mime.take(6) =~= "image/"@);
}

/// Whether the MIME type starts with `image/`.
pub fn is_image_type(mime_type: &str) -> (r: bool)
    ensures
        r == is_image_mime(mime_type@),
{
    let c = chars_of(mime_type);
    let p = chars_of("image/");
    if c.len() < p.len() {
        proof {
            reveal_strlit("image/");
        }
        return false;
    }
    let head = crate::text::sub_chars(c.as_slice(), 0, p.len());
    proof {
        reveal_strlit("image/");
    }
    crate::text::chars_equal(head.as_slice(), p.as_slice())
}

/// Whether a decoded image of `width` by `height` pixels is large enough for a thumbnail.
pub fn large_enough(width: u32, height: u32) -> (r: bool)
    ensures
        r == (if width < height {
            width
        } else {
            height
        } >= MIN_ORIGINAL_SIZE),
{
    let shorter = if width < height {
        width
    } else {
        height
    };
    shorter >= MIN_ORIGINAL_SIZE
}

/// Why an image could not be read: its format could not be guessed (with the reason),
/// no format was recognised, or decoding failed (with the reason).
#[derive(Debug, Clone, PartialEq, Eq)]
pub enum DecodeFailure {
    Unrecognized(String),
    NoFormat,
    Undecodable(String),
}

/// The width and height of the image the bytes hold, when the image crate guesses its
/// format and decodes it.
pub uninterp spec fn decoded_size(blob: Seq<u8>) -> Option<(u32, u32)>;

/// The resampling filter an image is scaled with.
#[derive(Debug, Clone, Copy, PartialEq, Eq)]
pub enum ScaleFilter {
    Nearest,
    Triangle,
    CatmullRom,
    Gaussian,
    Lanczos3,
}

/// The format a scaled image is written in.
#[derive(Debug, Clone, Copy, PartialEq, Eq)]
pub enum EncodedFormat {
    Jpeg,
    Png,
}

/// The bytes of the image scaled to fit `max_size` by `max_size` (aspect kept) with the
/// filter and written in the format, when the bytes decode and the image encodes.
pub uninterp spec fn scaled_encoding(
    blob: Seq<u8>,
    max_size: u32,
    filter: ScaleFilter,
    format: EncodedFormat,
) -> Option<Seq<u8>>;

/// A thumbnail's bytes: scaled with Lanczos3 and written as JPEG.
pub open spec fn scaled_jpeg(blob: Seq<u8>, max_size: u32) -> Option<Seq<u8>> {
    scaled_encoding(blob, max_size, ScaleFilter::Lanczos3, EncodedFormat::Jpeg)
}

/// Guesses the format of the bytes with `ImageReader::with_guessed_format`, checks that one
/// was found and decodes them; claimed: the dimensions are `decoded_size` of the bytes, and
/// a failure comes exactly when that is none. `ImageReader::decode` reports a bad image and
/// a buffer above its default allocation limit (512 MiB) as an `ImageError`; that its format
/// decoders never panic on malformed bytes is not documented by the crate and is not claimed
/// beyond this.
#[verifier::external_body]
fn decode_dimensions(blob: &[u8]) -> (r: Result<(u32, u32), DecodeFailure>)
    ensures
        r matches Ok(d) ==> decoded_size(blob@) == Some(d),
        r is Err ==> decoded_size(blob@) is None,
{
    let reader = match image::ImageReader::new(std::io::Cursor::new(blob)).with_guessed_format() {
        Ok(r) => r,
        Err(e) => return Err(DecodeFailure::Unrecognized(e.to_string())),
    };
    if reader.format().is_none() {
        return Err(DecodeFailure::NoFormat);
    }
    match reader.decode() {
        Ok(img) => Ok((img.width(), img.height())),
        Err(e) => Err(DecodeFailure::Undecodable(e.to_string())),
    }
}

/// Decodes the bytes, scales the image with `DynamicImage::resize` using the filter and
/// writes it with `DynamicImage::write_to` in the format; claimed: the bytes are
/// `scaled_encoding` of the arguments, and an error (with its reason) comes exactly when that
/// is none. `resize` keeps the aspect ratio and makes each side at least 1 pixel, so a
/// `max_size` of 0 gives a 1-pixel side; the scaled buffer is allocated without the decode
/// limit, and decoding is as for `decode_dimensions`.
#[verifier::external_body]
fn encode_scaled(blob: &[u8], max_size: u32, filter: ScaleFilter, format: EncodedFormat) -> (r:
    Result<Vec<u8>, String>)
    ensures
        r matches Ok(b) ==> scaled_encoding(blob@, max_size, filter, format) == Some(b@),
        r is Err ==> scaled_encoding(blob@, max_size, filter, format) is None,
{
    let filter = match filter {
        ScaleFilter::Nearest => FilterType::Nearest,
        ScaleFilter::Triangle => FilterType::Triangle,
        ScaleFilter::CatmullRom => FilterType::CatmullRom,
        ScaleFilter::Gaussian => FilterType::Gaussian,
        ScaleFilter::Lanczos3 => FilterType::Lanczos3,
    };
    let format = match format {
        EncodedFormat::Jpeg => ImageFormat::Jpeg,
        EncodedFormat::Png => ImageFormat::Png,
    };
    let img = ImageReader::new(Cursor::new(blob)).with_guessed_format().map_err(|e| e.to_string())?.decode().map_err(|e| e.to_string())?;
    let mut out = Cursor::new(Vec::new());
    img.resize(max_size, max_size, filter).write_to(&mut out, format).map_err(|e| e.to_string())?;
    Ok(out.into_inner())
}

/// The message of a decoding failure.
pub open spec fn decode_message(f: DecodeFailure) -> Seq<char> {
    match f {
        DecodeFailure::Unrecognized(m) => "无法识别图片格式: "@ + m@,
        DecodeFailure::NoFormat => "无法确定图片格式"@,
        DecodeFailure::Undecodable(m) => "解码图片失败: "@ + m@,
    }
}

/// The shorter side of an image.
pub open spec fn shorter_side(d: (u32, u32)) -> u32 {
    if d.0 < d.1 {
        d.0
    } else {
        d.1
    }
}

/// A JPEG thumbnail whose longest side is at most `max_size`, for an image attachment: none
/// for a type that is not `image/...` or an image whose shorter side is below
/// `MIN_ORIGINAL_SIZE`; an error when the image cannot be read or the thumbnail not encoded.
pub fn generate_thumbnail(blob: &[u8], mime_type: &str, max_size: u32) -> (r: Result<Option<Vec<u8>>, String>)
    ensures
        !is_image_mime(mime_type@) ==> r == Ok::<Option<Vec<u8>>, String>(None),
        is_image_mime(mime_type@) ==> match decoded_size(blob@) {
            None => r matches Err(m) && exists|f: DecodeFailure| m@ == #[trigger] decode_message(f),
            Some(d) => if shorter_side(d) < MIN_ORIGINAL_SIZE {
                r == Ok::<Option<Vec<u8>>, String>(None)
            } else {
                match scaled_jpeg(blob@, max_size) {
                    Some(b) => r matches Ok(Some(t)) && t@ == b,
                    None => r matches Err(m) && m@.len() >= 9 && m@.take(9) == "编码缩略图失败: "@,
                }
            },
        },
{
    if !is_image_type(mime_type) {
        return Ok(None);
    }
    let (w, h) = match decode_dimensions(blob) {
        Ok(d) => d,
        Err(f) => {
            let ghost gf = f;
            let msg = match f {
                DecodeFailure::Unrecognized(m) => crate::error::with_prefix("无法识别图片格式: ", &m),
                DecodeFailure::NoFormat => String::from_str("无法确定图片格式"),
                DecodeFailure::Undecodable(m) => crate::error::with_prefix("解码图片失败: ", &m),
            };
            assert(msg@ == decode_message(gf));
            return Err(msg);
        },
    };
    if !large_enough(w, h) {
        return Ok(None);
    }
    match encode_scaled(blob, max_size, ScaleFilter::Lanczos3, EncodedFormat::Jpeg) {
        Ok(b) => Ok(Some(b)),
        Err(e) => {
            let msg = crate::error::with_prefix("编码缩略图失败: ", &e);
            proof {
                reveal_strlit("编码缩略图失败: ");
            }
            assert(msg@.take(9) =~= "编码缩略图失败: "@);
            Err(msg)
        },
    }
}

} // verus!
