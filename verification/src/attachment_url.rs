//! The attachment URLs the interface loads files from: `/attachments/{uid}`, optionally with
//! `thumbnail=true` in the query, and the answers they get.
use crate::attachment::{Attachment, STORAGE_TYPE_LOCAL};
use crate::text::{chars_of, contains_text, str_contains, str_equals, string_from_chars, sub_chars};
use crate::thumbnail::{is_thumbnailable_image, thumbnailable};
use vstd::prelude::*;

verus! {

/// `Cache-Control` of an attachment answer.
pub const CACHE_CONTROL: &'static str = "public, max-age=3600";

/// `Content-Type` of a text answer.
pub const TEXT_CONTENT_TYPE: &'static str = "text/plain; charset=utf-8";

/// `Content-Type` of a thumbnail.
pub const THUMBNAIL_CONTENT_TYPE: &'static str = "image/jpeg";

/// The part of `p` after its last `/` (all of it when it has none).
pub open spec fn last_segment(p: Seq<char>) -> Seq<char>
    decreases p.len(),
{
    if p.len() == 0 {
        seq![]
    } else if p.last() == '/' {
        seq![]
    } else {
        last_segment(p.drop_last()).push(p.last())
    }
}

/// The uid an attachment URL path names: its last segment; an empty one is refused with
/// 400.
pub fn attachment_uid(path: &str) -> (r: Result<String, (u16, String)>)
    ensures
        last_segment(path@).len() > 0 ==> (r matches Ok(u) && u@ == last_segment(path@)),
        last_segment(path@).len() == 0 ==> (r matches Err(e) && e.0 == 400 && e.1@
            == "missing attachment uid"@),
{
    let c = chars_of(path);
    let mut start: usize = c.len();
    assert(c@.take(c.len() as int) =~= c@);
    assert(c@.subrange(c.len() as int, c.len() as int) =~= Seq::<char>::empty());
    assert(path@ == c@);
    while start > 0 && c[start - 1] != '/'
        invariant
            start <= c.len(),
            c@ == path@,
            last_segment(path@) == last_segment(c@.take(start as int)) + c@.subrange(
                start as int,
                c@.len() as int,
            ),
        decreases start,
    {
        let ghost t = c@.take(start as int);
        assert(t.drop_last() =~= c@.take(start - 1));
        assert(t.last() == c@[start - 1]);
        assert(seq![c@[start - 1]] + c@.subrange(start as int, c@.len() as int) =~= c@.subrange(
            start - 1,
            c@.len() as int,
        ));
        start = start - 1;
    }
    proof {
        let t = c@.take(start as int);
        if start > 0 {
            assert(t.last() == c@[start - 1]);
        }
        assert(last_segment(t) =~= seq![]);
    }
    if start == c.len() {
        assert(c@.subrange(start as int, c@.len() as int) =~= seq![]);
        return Err((400, String::from_str("missing attachment uid")));
    }
    let seg = sub_chars(c.as_slice(), start, c.len());
    Ok(string_from_chars(seg.as_slice()))
}

/// Whether the query asks for a thumbnail: it contains `thumbnail=true`.
pub fn wants_thumbnail(query: &str) -> (r: bool)
    ensures
        r == contains_text(query@, "thumbnail=true"@),
{
    str_contains(query, "thumbnail=true")
}

/// Whether an attachment's bytes are read from its file: stored locally with a reference.
pub fn reads_local_file(att: &Attachment) -> (r: bool)
    ensures
        r == (att.storage_type@ == STORAGE_TYPE_LOCAL@ && att.reference@.len() > 0),
{
    let rc = chars_of(att.reference.as_str());
    str_equals(att.storage_type.as_str(), STORAGE_TYPE_LOCAL) && rc.len() > 0
}

/// Whether a thumbnail is attempted: asked for, and the type can have one.
pub fn try_thumbnail(wanted: bool, mime_type: &str) -> (r: bool)
    ensures
        r == (wanted && thumbnailable(mime_type@)),
{
    wanted && is_thumbnailable_image(mime_type)
}

/// The content type of the answer: a thumbnail's, when one was made, else the
/// attachment's own.
pub fn answer_content_type(thumbnail_made: bool, mime_type: &str) -> (r: String)
    ensures
        r@ == if thumbnail_made {
            THUMBNAIL_CONTENT_TYPE@
        } else {
            mime_type@
        },
{
    if thumbnail_made {
        String::from_str(THUMBNAIL_CONTENT_TYPE)
    } else {
        String::from_str(mime_type)
    }
}

/// The bytes and content type an attachment URL answers with: the JPEG thumbnail when one
/// was asked for, the type can have one and it was made at the default size; otherwise the
/// attachment's own bytes and type.
pub fn served_body(blob: Vec<u8>, mime_type: &str, wanted: bool) -> (r: (Vec<u8>, String))
    ensures
        ({
            let made = wanted && thumbnailable(mime_type@) && match crate::thumbnail::decoded_size(
                blob@,
            ) {
                Some(d) => crate::thumbnail::shorter_side(d) >= crate::thumbnail::MIN_ORIGINAL_SIZE
                    && crate::thumbnail::scaled_jpeg(
                    blob@,
                    crate::thumbnail::DEFAULT_THUMBNAIL_SIZE,
                ) is Some,
                None => false,
            };
            &&& made ==> Some(r.0@) == crate::thumbnail::scaled_jpeg(
                blob@,
                crate::thumbnail::DEFAULT_THUMBNAIL_SIZE,
            ) && r.1@ == THUMBNAIL_CONTENT_TYPE@
            &&& !made ==> r.0@ == blob@ && r.1@ == mime_type@
        }),
{
    if try_thumbnail(wanted, mime_type) {
        proof {
            crate::thumbnail::lemma_thumbnailable_is_image(mime_type@);
        }
        match crate::thumbnail::generate_thumbnail(
            blob.as_slice(),
            mime_type,
            crate::thumbnail::DEFAULT_THUMBNAIL_SIZE,
        ) {
            Ok(Some(thumb)) => {
                return (thumb, answer_content_type(true, mime_type));
            },
            _ => {},
        }
    }
    let t = answer_content_type(false, mime_type);
    (blob, t)
}

/// The refusal for an unknown uid: 404 `attachment not found: {uid}`.
pub fn unknown_attachment(uid: &str) -> (r: (u16, String))
    ensures
        r.0 == 404,
        r.1@ == "attachment not found: "@ + uid@,
{
    let mut s = String::from_str("attachment not found: ");
    s.append(uid);
    (404, s)
}

} // verus!
