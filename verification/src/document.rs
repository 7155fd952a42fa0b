//! Document summaries: which attached files are summarised, how converted text is cut and
//! framed, and the prompt sent to the language model.
use crate::text::{
    chars_of, decimal, extend_chars, is_blank, push_decimal, str_equals, string_from_chars, sub_chars,
    trim_chars, trim_ws,
};
use vstd::prelude::*;

verus! {

/// Characters of converted text sent to the model at most.
pub const MAX_CHARS: usize = 6000;

/// Result of a summary request.
#[derive(Debug, Clone)]
pub struct DocumentSummaryResult {
    /// `"summary"`, `"structure"` or `"skipped"`.
    pub kind: String,
    /// Markdown block ready to be appended to a memo.
    pub markdown: String,
}

/// Unicode lower-case mapping of a text (`str::to_lowercase`).
pub uninterp spec fn lowercase(s: Seq<char>) -> Seq<char>;

/// Calls `str::to_lowercase`; the result is the Unicode lower-case mapping named `lowercase`,
/// which depends on the text alone.
#[verifier::external_body]
fn to_lowercase(s: &str) -> (r: String)
    ensures
        r@ == lowercase(s@),
{
    s.to_lowercase()
}

/// Position of the last `.` in `s`, if any.
pub open spec fn last_dot(s: Seq<char>) -> Option<int>
    decreases s.len(),
{
    if s.len() == 0 {
        None
    } else if s.last() == '.' {
        Some(s.len() - 1)
    } else {
        last_dot(s.drop_last())
    }
}

/// The extension of a file name: the text after its last `.`, lower-cased; empty when there
/// is no `.` or nothing follows the last one.
pub open spec fn extension_of(name: Seq<char>) -> Seq<char> {
    match last_dot(name) {
        Some(d) => if d + 1 < name.len() {
            lowercase(name.skip(d + 1))
        } else {
            seq![]
        },
        None => seq![],
    }
}

proof fn lemma_last_dot(s: Seq<char>, d: int)
    requires
        -1 <= d < s.len(),
        d >= 0 ==> s[d] == '.',
        forall|k: int| d < k < s.len() ==> s[k] != '.',
    ensures
        last_dot(s) == if d >= 0 {
            Some(d)
        } else {
            None::<int>
        },
    decreases s.len(),
{
    if s.len() > 0 && d < s.len() - 1 {
        assert forall|k: int| d < k < s.drop_last().len() implies s.drop_last()[k] != '.' by {
            assert(s.drop_last()[k] == s[k]);
        }
        lemma_last_dot(s.drop_last(), d);
    }
}

/// The lower-cased extension of a file name, or empty.
pub fn extract_extension(filename: &str) -> (r: String)
    ensures
        r@ == extension_of(filename@),
{
    let c = chars_of(filename);
    let mut d = c.len();
    while d > 0 && c[d - 1] != '.'
        invariant
            d <= c.len(),
            forall|k: int| d <= k < c.len() ==> c@[k] != '.',
        decreases d,
    {
        d = d - 1;
    }
    proof {
        lemma_last_dot(c@, d - 1);
    }
    if d == 0 || d >= c.len() {
        return String::new();
    }
    let tail = sub_chars(c.as_slice(), d, c.len());
    assert(tail@ =~= filename@.skip(d as int));
    let t = string_from_chars(tail.as_slice());
    to_lowercase(t.as_str())
}

/// Document extensions that are converted and summarised.
pub open spec fn is_document_ext(e: Seq<char>) -> bool {
    e == "pdf"@ || e == "docx"@ || e == "doc"@ || e == "pptx"@ || e == "ppt"@ || e == "xlsx"@
        || e == "xls"@ || e == "html"@ || e == "htm"@ || e == "csv"@ || e == "xml"@ || e
        == "rss"@ || e == "atom"@
}

/// Archive extensions whose structure is shown.
pub open spec fn is_zip_ext(e: Seq<char>) -> bool {
    e == "zip"@
}

/// Whether the extension is one of the supported document kinds.
pub fn is_supported_document(ext: &str) -> (r: bool)
    ensures
        r == is_document_ext(ext@),
{
    str_equals(ext, "pdf")
        || str_equals(ext, "docx")
        || str_equals(ext, "doc")
        || str_equals(ext, "pptx")
        || str_equals(ext, "ppt")
        || str_equals(ext, "xlsx")
        || str_equals(ext, "xls")
        || str_equals(ext, "html")
        || str_equals(ext, "htm")
        || str_equals(ext, "csv")
        || str_equals(ext, "xml")
        || str_equals(ext, "rss")
        || str_equals(ext, "atom")
}

/// Whether the extension is an archive's.
pub fn is_zip(ext: &str) -> (r: bool)
    ensures
        r == is_zip_ext(ext@),
{
    str_equals(ext, "zip")
}

/// What to do with a file, decided from its name before any conversion.
#[derive(Debug, Clone, Copy, PartialEq, Eq)]
pub enum DocumentKind {
    /// Neither a document nor an archive: nothing to do.
    Unsupported,
    /// An archive: show its structure.
    Archive,
    /// A document: summarise it.
    Document,
}

/// The kind of file a name stands for, by its extension.
pub open spec fn document_kind(filename: Seq<char>) -> DocumentKind {
    if is_zip_ext(extension_of(filename)) {
        DocumentKind::Archive
    } else if is_document_ext(extension_of(filename)) {
        DocumentKind::Document
    } else {
        DocumentKind::Unsupported
    }
}

/// The kind of file a name stands for, by its extension.
pub fn classify_document(filename: &str) -> (r: DocumentKind)
    ensures
        r == document_kind(filename@),
{
    let ext = extract_extension(filename);
    if is_zip(ext.as_str()) {
        DocumentKind::Archive
    } else if is_supported_document(ext.as_str()) {
        DocumentKind::Document
    } else {
        DocumentKind::Unsupported
    }
}

/// Outcome of the conversion step.
#[derive(Debug, Clone)]
pub enum Converted {
    /// Finished without the model.
    Done(DocumentSummaryResult),
    /// The model is to summarise `truncated`, the start of the document named `filename`.
    NeedsSummary { filename: String, truncated: String },
    /// The host is to convert the bytes as a file with `extension` in an isolated task, whose
    /// failure it reports, and then hand the text to `conversion_outcome` with `kind` and
    /// `filename`: markitdown's converters for PDF, Word, PowerPoint, spreadsheets, HTML,
    /// feeds and archives rest on parsers that can panic or run forever on malformed files.
    HostConversion { kind: DocumentKind, filename: String, extension: String },
}

/// The structure block shown for an archive.
pub open spec fn structure_markdown(filename: Seq<char>, text: Seq<char>) -> Seq<char> {
    "## 🗜️ "@ + filename + " 文件结构\n\n```text\n"@ + text + "\n```"@
}

/// What a converted file leads to: a skip when the file is unsupported or conversion gave
/// nothing, the structure block for an archive, a skip when the document's first
/// `MAX_CHARS` characters are blank, else a summary request for those characters.
pub open spec fn conversion_outcome_ok(
    kind: DocumentKind,
    filename: Seq<char>,
    text: Option<Seq<char>>,
    r: Converted,
) -> bool {
    match (kind, text) {
        (DocumentKind::Unsupported, _) | (_, None) => r matches Converted::Done(d) && d.kind@
            == "skipped"@ && d.markdown@.len() == 0,
        (DocumentKind::Archive, Some(t)) => r matches Converted::Done(d) && d.kind@
            == "structure"@ && d.markdown@ == structure_markdown(filename, t),
        (DocumentKind::Document, Some(t)) => {
            let cut = if t.len() <= MAX_CHARS {
                t
            } else {
                t.take(MAX_CHARS as int)
            };
            if trim_ws(cut).len() == 0 {
                r matches Converted::Done(d) && d.kind@ == "skipped"@ && d.markdown@.len() == 0
            } else {
                r matches Converted::NeedsSummary { filename: f, truncated } && f@ == filename
                    && truncated@ == cut
            }
        },
    }
}

fn skipped() -> (d: DocumentSummaryResult)
    ensures
        d.kind@ == "skipped"@,
        d.markdown@.len() == 0,
{
    DocumentSummaryResult { kind: String::from_str("skipped"), markdown: String::new() }
}

/// Decides what a file leads to once converted; `text` is the converted text, or `None` when
/// conversion failed or produced nothing.
pub fn conversion_outcome(kind: DocumentKind, filename: String, text: Option<String>) -> (r:
    Converted)
    ensures
        conversion_outcome_ok(
            kind,
            filename@,
            match text {
                Some(t) => Some(t@),
                None => None,
            },
            r,
        ),
{
    match kind {
        DocumentKind::Unsupported => Converted::Done(skipped()),
        DocumentKind::Archive => match text {
            None => Converted::Done(skipped()),
            Some(t) => {
                let mut md = String::from_str("## 🗜️ ");
                md.append(filename.as_str());
                md.append(" 文件结构\n\n```text\n");
                md.append(t.as_str());
                md.append("\n```");
                Converted::Done(DocumentSummaryResult { kind: String::from_str("structure"), markdown: md })
            },
        },
        DocumentKind::Document => match text {
            None => Converted::Done(skipped()),
            Some(t) => {
                let c = chars_of(t.as_str());
                let end = if c.len() <= MAX_CHARS {
                    c.len()
                } else {
                    MAX_CHARS
                };
                let cut = sub_chars(c.as_slice(), 0, end);
                assert(c@.subrange(0, c@.len() as int) =~= c@);
                if is_blank(cut.as_slice()) {
                    Converted::Done(skipped())
                } else {
                    Converted::NeedsSummary { filename, truncated: string_from_chars(cut.as_slice()) }
                }
            },
        },
    }
}

/// The markdown block for a summary the model wrote: a heading with the file name, then the
/// summary trimmed.
pub fn summary_markdown(filename: &str, summary: &str) -> (r: String)
    ensures
        r@ == "## 📄 "@ + filename@ + " 摘要\n\n"@ + trim_ws(summary@),
{
    let s = chars_of(summary);
    let t = trim_chars(s.as_slice());
    let ts = string_from_chars(t.as_slice());
    let mut md = String::from_str("## 📄 ");
    md.append(filename);
    md.append(" 摘要\n\n");
    md.append(ts.as_str());
    md
}


/// The instructions given to the model that summarises documents.
pub const SUMMARY_SYSTEM_PROMPT: &'static str =
    "你是一位专业的文档摘要助手，擅长从结构化或半结构化的文本中提炼核心信息。\n根据用户提供的文档内容，生成一份简洁的摘要，包含：\n1. 文档主题与目的\n2. 关键论点、数据或结构\n3. 重要结论或可操作要点\n要求：\n- 使用用户提问的语言\n- 摘要控制在 200-400 字\n- 使用 markdown 列表/段落组织，清晰易读\n- 不要复述原文，要提炼";

/// The file extension handed to the converter: a dot, then the extension.
pub fn conversion_extension(ext: &str) -> (r: String)
    ensures
        r@ == "."@ + ext@,
{
    let mut s = String::from_str(".");
    s.append(ext);
    s
}

/// The request to summarise the start of a document: its name, how many characters are
/// given, then those characters.
pub fn summary_request(filename: &str, truncated: &str) -> (r: String)
    ensures
        r@ == "以下是文档《"@ + filename@ + "》的前 "@ + decimal(truncated@.len())
            + " 字符内容，请生成一份简洁的中文摘要，概括其核心主题、关键信息与结构要点。只输出摘要正文，不要额外说明。\n\n---\n"@
            + truncated@,
{
    let t = chars_of(truncated);
    let mut v = chars_of("以下是文档《");
    let f = chars_of(filename);
    extend_chars(&mut v, f.as_slice());
    let m = chars_of("》的前 ");
    extend_chars(&mut v, m.as_slice());
    push_decimal(&mut v, t.len() as u64);
    let e = chars_of(" 字符内容，请生成一份简洁的中文摘要，概括其核心主题、关键信息与结构要点。只输出摘要正文，不要额外说明。\n\n---\n");
    extend_chars(&mut v, e.as_slice());
    extend_chars(&mut v, t.as_slice());
    string_from_chars(v.as_slice())
}

/// The text markitdown gives for bytes converted as a file with the given extension (with
/// its dot), or none when the conversion fails or finds no converter.
pub uninterp spec fn markitdown_text(blob: Seq<u8>, extension: Seq<char>) -> Option<Seq<char>>;

/// The extensions (with the dot) converted inside the library: CSV, which markitdown reads
/// with the `csv` crate and which reports a bad record as text, and the old Word and
/// PowerPoint formats, which no converter of markitdown accepts (each turns the extension
/// down before reading a byte).
pub open spec fn contained_conversion(extension: Seq<char>) -> bool {
    extension == ".csv"@ || extension == ".doc"@ || extension == ".ppt"@
}

/// The document extensions (without the dot) converted inside the library, see
/// `contained_conversion`.
pub open spec fn library_extension(ext: Seq<char>) -> bool {
    ext == "csv"@ || ext == "doc"@ || ext == "ppt"@
}

/// The extensions of documents and archives converted by the host: all the others.
pub open spec fn hosted_extension(ext: Seq<char>) -> bool {
    !library_extension(ext)
}

/// Converts bytes with `MarkItDown::convert_bytes`, as a file with `extension`; claimed: the
/// text is `markitdown_text` of the bytes and extension, and none comes exactly when that is
/// none (an error or no result). Only the extensions of `contained_conversion` are admitted:
/// for them markitdown's dispatch reaches no converter but the CSV one, whose reading of
/// bytes returns on every input.
#[verifier::external_body]
fn markitdown_convert(blob: &[u8], extension: &str) -> (r: Option<String>)
    requires
        contained_conversion(extension@),
    ensures
        r matches Some(t) ==> markitdown_text(blob@, extension@) == Some(t@),
        r is None ==> markitdown_text(blob@, extension@) is None,
{
    let options = markitdown::model::ConversionOptions {
        file_extension: Some(extension.to_string()),
        url: None,
        llm_client: None,
        llm_model: None,
    };
    match markitdown::MarkItDown::new().convert_bytes(blob, Some(options)) {
        Ok(Some(result)) => Some(result.text_content),
        Ok(None) => None,
        Err(_) => None,
    }
}

/// The text of a converted file, as a sequence when there is one.
pub open spec fn converted_text(blob: Seq<u8>, filename: Seq<char>) -> Option<Seq<char>> {
    markitdown_text(blob, "."@ + extension_of(filename))
}

/// Whether the file's extension is one the host converts.
pub fn is_hosted_extension(ext: &str) -> (r: bool)
    ensures
        r == hosted_extension(ext@),
{
    !(str_equals(ext, "csv") || str_equals(ext, "doc") || str_equals(ext, "ppt"))
}

/// The conversion step of a summary: a file that is neither a document nor an archive is
/// skipped unread; a CSV file or an old Word or PowerPoint file is converted here as a file
/// with its extension and the text decides the outcome (see `conversion_outcome`); any other
/// document or archive is handed to the host to convert in isolation.
pub fn convert_document(blob: &[u8], filename: String) -> (r: Converted)
    ensures
        document_kind(filename@) != DocumentKind::Unsupported && hosted_extension(
            extension_of(filename@),
        ) ==> (r matches Converted::HostConversion { kind, filename: f, extension } && kind
            == document_kind(filename@) && f@ == filename@ && extension@ == "."@ + extension_of(
            filename@,
        )),
        !(document_kind(filename@) != DocumentKind::Unsupported && hosted_extension(
            extension_of(filename@),
        )) ==> conversion_outcome_ok(
            document_kind(filename@),
            filename@,
            converted_text(blob@, filename@),
            r,
        ),
{
    let kind = classify_document(filename.as_str());
    match kind {
        DocumentKind::Unsupported => Converted::Done(skipped()),
        _ => {
            let ext = extract_extension(filename.as_str());
            let dotted = crate::error::with_prefix(".", &ext);
            proof {
                reveal_strlit(".");
                reveal_strlit("csv");
                reveal_strlit("doc");
                reveal_strlit("ppt");
                reveal_strlit(".csv");
                reveal_strlit(".doc");
                reveal_strlit(".ppt");
            }
            if is_hosted_extension(ext.as_str()) {
                return Converted::HostConversion { kind, filename, extension: dotted };
            }
            assert(dotted@ == "."@ + ext@);
            assert(contained_conversion(dotted@)) by {
                if ext@ == "csv"@ {
                    assert(dotted@ =~= ".csv"@);
                } else if ext@ == "doc"@ {
                    assert(dotted@ =~= ".doc"@);
                } else {
                    assert(dotted@ =~= ".ppt"@);
                }
            }
            let text = markitdown_convert(blob, dotted.as_str());
            conversion_outcome(kind, filename, text)
        },
    }
}

} // verus!
