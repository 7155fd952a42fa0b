//! Request and response types of the application commands, and how requests become queries.
use crate::attachment::FindAttachment;
use crate::lan::protocol::RemoteMemoSummary;
use crate::lan::auth::AclRule;
use crate::markdown::{
    extract_all, generate_snippet, mentions_of, render_html, snippet, string_views, tags_of,
    comrak_html,
};
use crate::memo::FindMemo;
use crate::reaction::FindReaction;
use crate::sql::{arg_views, int_args, placeholders, SqlBuilder, SqlQuery};
use crate::types::{RowStatus, Visibility};
use vstd::prelude::*;

verus! {

broadcast use vstd::seq_lib::group_to_multiset_ensures;

/// Request to store an attachment; without `storage_type` the storage configuration decides.
#[derive(Debug, Clone)]
pub struct CreateAttachmentRequest {
    pub uid: String,
    pub filename: String,
    pub blob: Vec<u8>,
    pub mime_type: String,
    pub memo_id: Option<i32>,
    pub storage_type: Option<String>,
}

/// Request to list attachments.
#[derive(Debug, Clone)]
pub struct ListAttachmentsRequest {
    pub id: Option<i32>,
    pub uid: Option<String>,
    pub memo_id: Option<i32>,
    pub memo_id_list: Vec<i32>,
    pub memo_id_is_null: bool,
    pub limit: Option<i32>,
    pub offset: Option<i32>,
    pub get_blob: Option<bool>,
}

impl ListAttachmentsRequest {
    /// The query filter of the request; the blob is read only when asked for.
    pub fn into_find(self) -> (f: FindAttachment)
        ensures
            f == (FindAttachment {
                id: self.id,
                uid: self.uid,
                memo_id: self.memo_id,
                memo_id_list: self.memo_id_list,
                memo_id_is_null: self.memo_id_is_null,
                limit: self.limit,
                offset: self.offset,
                get_blob: match self.get_blob {
                    Some(b) => b,
                    None => false,
                },
            }),
    {
        FindAttachment {
            id: self.id,
            uid: self.uid,
            memo_id: self.memo_id,
            memo_id_list: self.memo_id_list,
            memo_id_is_null: self.memo_id_is_null,
            limit: self.limit,
            offset: self.offset,
            get_blob: match self.get_blob {
                Some(b) => b,
                None => false,
            },
        }
    }
}

/// A thumbnail.
#[derive(Debug, Clone)]
pub struct ThumbnailResponse {
    pub blob: Vec<u8>,
    pub mime_type: String,
}

/// This device's identity on the local network.
#[derive(Debug, Clone)]
pub struct LocalIdentity {
    pub peer_id: String,
    pub display_name: String,
}

/// Request to rename this device.
#[derive(Debug, Clone)]
pub struct UpdateDisplayNameRequest {
    pub name: String,
}

/// A peer's profile.
#[derive(Debug, Clone)]
pub struct RemoteProfile {
    pub display_name: String,
    pub public_memo_count: u32,
    pub tags: Vec<String>,
}

/// Request for a page of a peer's memos.
#[derive(Debug, Clone)]
pub struct ListRemoteMemosRequest {
    pub peer_id: String,
    pub offset: u32,
    pub limit: u32,
    pub tag_filter: Option<Vec<String>>,
}

/// A page of a peer's memos.
#[derive(Debug, Clone)]
pub struct ListRemoteMemosResponse {
    pub memos: Vec<RemoteMemoSummary>,
    pub total: u32,
}

/// Request for one of a peer's memos.
#[derive(Debug, Clone)]
pub struct GetRemoteMemoRequest {
    pub peer_id: String,
    pub uid: String,
}

/// Request for one of a peer's attachments.
#[derive(Debug, Clone)]
pub struct GetRemoteAttachmentRequest {
    pub peer_id: String,
    pub uid: String,
}

/// A peer's attachment.
#[derive(Debug, Clone)]
pub struct RemoteAttachmentResponse {
    pub content: Vec<u8>,
    pub mime_type: String,
}

/// Request to copy a peer's memo here.
#[derive(Debug, Clone)]
pub struct CopyMemoToLocalRequest {
    pub peer_id: String,
    pub uid: String,
}

/// The uid of the copied memo.
#[derive(Debug, Clone)]
pub struct CopyMemoToLocalResponse {
    pub new_memo_uid: String,
}

/// Request to replace the sharing rules.
#[derive(Debug, Clone)]
pub struct SaveAclRulesRequest {
    pub rules: Vec<AclRule>,
}

/// Result of a connection test against the local model server.
#[derive(Debug, Clone)]
pub struct TestConnectionResult {
    pub ok: bool,
    pub status: u16,
    pub body_preview: String,
    pub error: Option<String>,
}

/// Result of a connection test against the tool server.
#[derive(Debug, Clone)]
pub struct McpTestResult {
    pub ok: bool,
    pub status: u16,
    pub body_preview: String,
    pub error: Option<String>,
}

/// Markdown metadata of a memo.
#[derive(Debug, Clone)]
pub struct MemoMetadata {
    pub tags: Vec<String>,
    pub mentions: Vec<String>,
    pub html: String,
    pub snippet: String,
}

/// A tag and the number of memos using it.
#[derive(Debug, Clone)]
pub struct TagWithCount {
    pub tag: String,
    pub count: i32,
}

/// Creation and update times of all memos.
#[derive(Debug, Clone)]
pub struct MemoTimestamps {
    pub created_timestamps: Vec<i64>,
    pub updated_timestamps: Vec<i64>,
}

/// Request to add a reaction.
#[derive(Debug, Clone)]
pub struct UpsertReactionRequest {
    pub content_id: String,
    pub reaction_type: String,
}

/// Request to list reactions.
#[derive(Debug, Clone)]
pub struct ListReactionsRequest {
    pub id: Option<i32>,
    pub content_id: Option<String>,
    pub content_id_list: Option<Vec<String>>,
}

impl ListReactionsRequest {
    /// The query filter of the request; no id list means none.
    pub fn into_find(self) -> (f: FindReaction)
        ensures
            f.id == self.id,
            f.content_id == self.content_id,
            f.content_id_list@ == match self.content_id_list {
                Some(v) => v@,
                None => Seq::<String>::empty(),
            },
    {
        FindReaction {
            id: self.id,
            content_id: self.content_id,
            content_id_list: match self.content_id_list {
                Some(v) => v,
                None => Vec::new(),
            },
        }
    }
}

/// Request to set an application setting.
#[derive(Debug, Clone)]
pub struct UpsertAppSettingRequest {
    pub key: String,
    pub value: String,
}

/// Request to set an instance setting.
#[derive(Debug, Clone)]
pub struct UpsertInstanceSettingRequest {
    pub name: String,
    pub value: String,
    pub description: String,
}

/// A point in time.
#[derive(Debug, Clone, Copy, PartialEq, Eq)]
pub struct Timestamp {
    pub seconds: i64,
    pub nanos: i32,
}

/// Database size.
#[derive(Debug, Clone)]
pub struct DatabaseStats {
    pub driver: String,
    pub size_bytes: i64,
}

/// Resource usage of this instance.
#[derive(Debug, Clone)]
pub struct InstanceStatsResponse {
    pub generated_time: Timestamp,
    pub database: DatabaseStats,
    pub local_storage_bytes: i64,
}

/// Database size from its page count and page size; a product beyond `i64` is refused.
pub fn database_size(page_count: i64, page_size: i64) -> (r: Option<i64>)
    ensures
        r matches Some(n) ==> n == page_count * page_size,
        r is None <==> !(i64::MIN <= page_count * page_size <= i64::MAX),
{
    page_count.checked_mul(page_size)
}


/// Length of the snippet of rendered memo metadata, in characters.
pub const METADATA_SNIPPET_LENGTH: usize = 200;

/// The markdown metadata of a memo's content: its tags and mentions, its HTML and its
/// snippet.
pub fn render_memo_content(content: String) -> (r: MemoMetadata)
    ensures
        string_views(r.tags@) == tags_of(content@),
        string_views(r.mentions@) == mentions_of(content@),
        r.html@ == comrak_html(content@, true, true, true, true, false, true, false),
        r.snippet@ == snippet(content@, METADATA_SNIPPET_LENGTH as nat),
{
    let extracted = extract_all(content.as_str());
    MemoMetadata {
        html: render_html(content.as_str()),
        snippet: generate_snippet(content.as_str(), METADATA_SNIPPET_LENGTH),
        tags: extracted.tags,
        mentions: extracted.mentions,
    }
}

/// Whether the numbers are in ascending order.
pub open spec fn ascending(s: Seq<i64>) -> bool {
    forall|i: int, j: int| 0 <= i <= j < s.len() ==> s[i] <= s[j]
}

/// The timestamps in ascending order.
pub fn sort_timestamps(v: &Vec<i64>) -> (r: Vec<i64>)
    ensures
        ascending(r@),
        r@.to_multiset() == v@.to_multiset(),
{
    let mut out: Vec<i64> = Vec::new();
    let mut k: usize = 0;
    while k < v.len()
        invariant
            k <= v.len(),
            ascending(out@),
            out@.to_multiset() == v@.take(k as int).to_multiset(),
        decreases v.len() - k,
    {
        let x = v[k];
        let mut p: usize = 0;
        while p < out.len() && out[p] <= x
            invariant
                p <= out.len(),
                ascending(out@),
                forall|q: int| 0 <= q < p ==> out@[q] <= x,
            decreases out.len() - p,
        {
            p = p + 1;
        }
        let ghost before = out@;
        out.insert(p, x);
        proof {
            assert(forall|q: int| p <= q < before.len() ==> before[q] > x) by {
                if p < before.len() {
                    assert(before[p as int] > x);
                }
            }
            assert(out@ == before.insert(p as int, x));
            assert forall|i: int, j: int| 0 <= i <= j < out@.len() implies out@[i] <= out@[j] by {
                if i < p && j < p {
                } else if i < p && j == p {
                } else if i < p && j > p {
                    assert(out@[j] == before[j - 1]);
                } else if i == p && j == p {
                } else if i == p && j > p {
                    assert(out@[j] == before[j - 1]);
                } else {
                    assert(out@[i] == before[i - 1] && out@[j] == before[j - 1]);
                }
            }
            assert(v@.take(k + 1) =~= v@.take(k as int).push(x));
        }
        k = k + 1;
    }
    assert(v@.take(v.len() as int) =~= v@);
    out
}

/// The creation and update times of the memos, each list in ascending order.
pub fn memo_timestamps(created: &Vec<i64>, updated: &Vec<i64>) -> (r: MemoTimestamps)
    ensures
        ascending(r.created_timestamps@),
        r.created_timestamps@.to_multiset() == created@.to_multiset(),
        ascending(r.updated_timestamps@),
        r.updated_timestamps@.to_multiset() == updated@.to_multiset(),
{
    MemoTimestamps {
        created_timestamps: sort_timestamps(created),
        updated_timestamps: sort_timestamps(updated),
    }
}

/// The statement counting the comments of each of the memos: none when there are no ids.
pub fn count_comments_query(parent_ids: &Vec<i32>) -> (r: Option<SqlQuery>)
    ensures
        parent_ids.len() == 0 ==> r is None,
        parent_ids.len() > 0 ==> (r matches Some(q) && q.sql@
            == "SELECT parent_id, COUNT(*) FROM memo WHERE parent_id IN ("@ + placeholders(
            parent_ids.len() as nat,
        ) + ") GROUP BY parent_id"@ && arg_views(q.args@) == int_args(parent_ids@)),
{
    if parent_ids.len() == 0 {
        return None;
    }
    let mut b = SqlBuilder::new();
    b.push_str("SELECT parent_id, COUNT(*) FROM memo WHERE parent_id IN (");
    b.push_placeholders(parent_ids.len());
    b.push_str(") GROUP BY parent_id");
    b.bind_ints(parent_ids);
    assert(arg_views(b.args@) =~= int_args(parent_ids@));
    Some(b.finish())
}

/// Request to list memos; absent lists mean no restriction.
#[derive(Debug, Clone)]
pub struct ListMemosRequest {
    pub id: Option<i32>,
    pub uid: Option<String>,
    pub id_list: Option<Vec<i32>>,
    pub uid_list: Option<Vec<String>>,
    pub row_status: Option<RowStatus>,
    pub visibility_list: Option<Vec<Visibility>>,
    pub exclude_content: bool,
    pub content_contains: Option<String>,
    pub fts_query: Option<String>,
    pub vector_embedding: Option<String>,
    pub vector_top_k: Option<u32>,
    pub tag_search: Option<Vec<String>>,
    pub created_ts_after: Option<i64>,
    pub created_ts_before: Option<i64>,
    pub updated_ts_after: Option<i64>,
    pub updated_ts_before: Option<i64>,
    pub limit: Option<i32>,
    pub offset: Option<i32>,
    pub order_by_pinned: bool,
    pub order_by_updated_ts: bool,
    pub order_by_time_asc: bool,
}

fn or_empty<T>(v: Option<Vec<T>>) -> (r: Vec<T>)
    ensures
        r@ == match v {
            Some(x) => x@,
            None => Seq::<T>::empty(),
        },
{
    match v {
        Some(x) => x,
        None => Vec::new(),
    }
}

/// The memo filter of a list request, field for field; absent lists become empty.
pub fn build_find(req: ListMemosRequest) -> (f: FindMemo)
    ensures
        f.id == req.id,
        f.uid == req.uid,
        f.id_list@ == match req.id_list {
            Some(x) => x@,
            None => Seq::<i32>::empty(),
        },
        f.uid_list@ == match req.uid_list {
            Some(x) => x@,
            None => Seq::<String>::empty(),
        },
        f.row_status == req.row_status,
        f.visibility_list@ == match req.visibility_list {
            Some(x) => x@,
            None => Seq::<Visibility>::empty(),
        },
        f.exclude_content == req.exclude_content,
        f.content_contains == req.content_contains,
        f.fts_query == req.fts_query,
        f.vector_embedding == req.vector_embedding,
        f.vector_top_k == req.vector_top_k,
        f.tag_search@ == match req.tag_search {
            Some(x) => x@,
            None => Seq::<String>::empty(),
        },
        f.created_ts_after == req.created_ts_after,
        f.created_ts_before == req.created_ts_before,
        f.updated_ts_after == req.updated_ts_after,
        f.updated_ts_before == req.updated_ts_before,
        f.limit == req.limit,
        f.offset == req.offset,
        f.order_by_pinned == req.order_by_pinned,
        f.order_by_updated_ts == req.order_by_updated_ts,
        f.order_by_time_asc == req.order_by_time_asc,
{
    FindMemo {
        id: req.id,
        uid: req.uid,
        id_list: or_empty(req.id_list),
        uid_list: or_empty(req.uid_list),
        row_status: req.row_status,
        visibility_list: or_empty(req.visibility_list),
        exclude_content: req.exclude_content,
        content_contains: req.content_contains,
        fts_query: req.fts_query,
        vector_embedding: req.vector_embedding,
        vector_top_k: req.vector_top_k,
        tag_search: or_empty(req.tag_search),
        created_ts_after: req.created_ts_after,
        created_ts_before: req.created_ts_before,
        updated_ts_after: req.updated_ts_after,
        updated_ts_before: req.updated_ts_before,
        limit: req.limit,
        offset: req.offset,
        order_by_pinned: req.order_by_pinned,
        order_by_updated_ts: req.order_by_updated_ts,
        order_by_time_asc: req.order_by_time_asc,
    }
}

/// The filter that counts all memos of a list request: the same without limit and offset.
pub fn count_filter(f: FindMemo) -> (r: FindMemo)
    ensures
        r == (FindMemo { limit: None, offset: None, ..f }),
{
    FindMemo { limit: None, offset: None, ..f }
}


/// Characters of a connection test's answer shown.
pub const BODY_PREVIEW_CHARS: usize = 500;

/// The first `BODY_PREVIEW_CHARS` characters of a body.
pub open spec fn body_preview(body: Seq<char>) -> Seq<char> {
    if body.len() <= BODY_PREVIEW_CHARS {
        body
    } else {
        body.take(BODY_PREVIEW_CHARS as int)
    }
}

fn preview_of(body: &str) -> (r: String)
    ensures
        r@ == body_preview(body@),
{
    let c = crate::text::chars_of(body);
    let end = if c.len() <= BODY_PREVIEW_CHARS {
        c.len()
    } else {
        BODY_PREVIEW_CHARS
    };
    let t = crate::text::sub_chars(c.as_slice(), 0, end);
    assert(c@.subrange(0, c@.len() as int) =~= c@);
    crate::text::string_from_chars(t.as_slice())
}

/// Whether an HTTP status is a success (2xx).
pub open spec fn http_success(status: u16) -> bool {
    200 <= status < 300
}

/// The result of a runner connection test that got an answer: success on 2xx, else
/// `HTTP {status}`; the start of the body either way.
pub fn llm_test_result(status: u16, body: &str) -> (r: TestConnectionResult)
    ensures
        r.ok == http_success(status),
        r.status == status,
        r.body_preview@ == body_preview(body@),
        http_success(status) ==> r.error is None,
        !http_success(status) ==> (r.error matches Some(e) && e@ == "HTTP "@ + crate::text::decimal(
            status as nat,
        )),
{
    let ok = status >= 200 && status < 300;
    let error = if ok {
        None
    } else {
        let mut v = crate::text::chars_of("HTTP ");
        crate::text::push_decimal(&mut v, status as u64);
        Some(crate::text::string_from_chars(v.as_slice()))
    };
    TestConnectionResult { ok, status, body_preview: preview_of(body), error }
}

/// The result of a connection test that got no usable answer.
pub fn llm_test_failure(message: String) -> (r: TestConnectionResult)
    ensures
        !r.ok,
        r.status == 0,
        r.body_preview@.len() == 0,
        r.error == Some(message),
{
    TestConnectionResult { ok: false, status: 0, body_preview: String::new(), error: Some(message) }
}

/// Whether a tool server's answer lists the memo tools: it mentions `"tools"` and
/// `create_memo` or `list_memos`.
pub open spec fn lists_memo_tools(body: Seq<char>) -> bool {
    crate::text::contains_text(body, "\"tools\""@) && (crate::text::contains_text(
        body,
        "create_memo"@,
    ) || crate::text::contains_text(body, "list_memos"@))
}

/// The result of a tool server connection test that got an answer: on 2xx, success when
/// the answer lists the memo tools, else `响应未包含预期工具列表`; otherwise `HTTP {status}`.
pub fn mcp_test_result(status: u16, body: &str) -> (r: McpTestResult)
    ensures
        r.status == status,
        r.body_preview@ == body_preview(body@),
        r.ok == (http_success(status) && lists_memo_tools(body@)),
        http_success(status) && lists_memo_tools(body@) ==> r.error is None,
        http_success(status) && !lists_memo_tools(body@) ==> (r.error matches Some(e) && e@
            == "响应未包含预期工具列表"@),
        !http_success(status) ==> (r.error matches Some(e) && e@ == "HTTP "@
            + crate::text::decimal(status as nat)),
{
    if status >= 200 && status < 300 {
        let ok = crate::text::str_contains(body, "\"tools\"") && (crate::text::str_contains(
            body,
            "create_memo",
        ) || crate::text::str_contains(body, "list_memos"));
        let error = if ok {
            None
        } else {
            Some(String::from_str("响应未包含预期工具列表"))
        };
        McpTestResult { ok, status, body_preview: preview_of(body), error }
    } else {
        let mut v = crate::text::chars_of("HTTP ");
        crate::text::push_decimal(&mut v, status as u64);
        McpTestResult {
            ok: false,
            status,
            body_preview: preview_of(body),
            error: Some(crate::text::string_from_chars(v.as_slice())),
        }
    }
}

/// The result of a tool server connection test that got no usable answer.
pub fn mcp_test_failure(message: String) -> (r: McpTestResult)
    ensures
        !r.ok,
        r.status == 0,
        r.body_preview@.len() == 0,
        r.error == Some(message),
{
    McpTestResult { ok: false, status: 0, body_preview: String::new(), error: Some(message) }
}


/// The resource statistics of the instance at `now` (seconds).
pub fn instance_stats(now: i64, db_size: i64, local_storage_bytes: i64) -> (r: InstanceStatsResponse)
    ensures
        r.generated_time == (Timestamp { seconds: now, nanos: 0 }),
        r.database.driver@ == "SQLite"@,
        r.database.size_bytes == db_size,
        r.local_storage_bytes == local_storage_bytes,
{
    InstanceStatsResponse {
        generated_time: Timestamp { seconds: now, nanos: 0 },
        database: DatabaseStats { driver: String::from_str("SQLite"), size_bytes: db_size },
        local_storage_bytes,
    }
}


/// The storage kind a new attachment gets: `LOCAL` when the request asks for it, `DATABASE`
/// when it asks for anything else, else what the configuration decides for its size.
pub fn requested_storage(requested: &Option<String>, cfg: &crate::setting::StorageConfig, blob_len: usize) -> (r: &'static str)
    ensures
        match requested {
            Some(s) => if s@ == crate::attachment::STORAGE_TYPE_LOCAL@ {
                r@ == crate::attachment::STORAGE_TYPE_LOCAL@
            } else {
                r@ == crate::attachment::STORAGE_TYPE_DATABASE@
            },
            None => r@ == crate::setting::storage_for(*cfg, blob_len as nat),
        },
{
    match requested {
        Some(s) => if crate::text::str_equals(s.as_str(), crate::attachment::STORAGE_TYPE_LOCAL) {
            crate::attachment::STORAGE_TYPE_LOCAL
        } else {
            crate::attachment::STORAGE_TYPE_DATABASE
        },
        None => crate::setting::resolve_storage_type(cfg, blob_len),
    }
}

/// The attachment to create for a request once its storage is decided: a local one keeps
/// no bytes in the database and has the written file's `reference`; the size is the
/// blob's length either way.
pub fn attachment_to_create(req: CreateAttachmentRequest, storage: &str, reference: String) -> (r:
    crate::attachment::CreateAttachment)
    requires
        req.blob.len() <= i64::MAX,
    ensures
        r.uid == req.uid,
        r.filename == req.filename,
        r.mime_type == req.mime_type,
        r.memo_id == req.memo_id,
        r.storage_type@ == storage@,
        storage@ == crate::attachment::STORAGE_TYPE_LOCAL@ ==> r.blob@.len() == 0 && r.reference
            == reference,
        storage@ != crate::attachment::STORAGE_TYPE_LOCAL@ ==> r.blob@ == req.blob@
            && r.reference@.len() == 0,
        r.size == Some(req.blob.len() as i64),
{
    let size = req.blob.len() as i64;
    let local = crate::text::str_equals(storage, crate::attachment::STORAGE_TYPE_LOCAL);
    let (blob, reference) = if local {
        (Vec::new(), reference)
    } else {
        (req.blob, String::new())
    };
    crate::attachment::CreateAttachment {
        uid: req.uid,
        filename: req.filename,
        blob,
        mime_type: req.mime_type,
        memo_id: req.memo_id,
        storage_type: String::from_str(storage),
        reference,
        size: Some(size),
    }
}

/// An attachment with its bytes apart.
#[derive(Debug, Clone)]
pub struct AttachmentWithBlob {
    pub attachment: crate::attachment::Attachment,
    pub blob: Option<Vec<u8>>,
}

/// Moves an attachment's bytes out of it, next to it.
pub fn with_separate_blob(a: crate::attachment::Attachment) -> (r: AttachmentWithBlob)
    ensures
        r.blob == a.blob,
        r.attachment == (crate::attachment::Attachment { blob: None, ..a }),
{
    let blob = a.blob;
    AttachmentWithBlob { attachment: crate::attachment::Attachment { blob: None, ..a }, blob }
}

/// Whether deleting an attachment also deletes a file: a local one with a reference.
pub fn deletes_local_file(storage_type: &str, reference: &str) -> (r: bool)
    ensures
        r == (storage_type@ == crate::attachment::STORAGE_TYPE_LOCAL@ && reference@.len() > 0),
{
    let rc = crate::text::chars_of(reference);
    crate::text::str_equals(storage_type, crate::attachment::STORAGE_TYPE_LOCAL) && rc.len() > 0
}

/// The error for an attachment id that does not exist: `attachment id={id}`.
pub fn attachment_not_found(id: i32) -> (e: crate::error::IpcError)
    ensures
        e matches crate::error::IpcError::NotFound(m) && m@ == "attachment id="@
            + crate::text::signed_decimal(id as int),
{
    let mut v = crate::text::chars_of("attachment id=");
    crate::text::push_signed_decimal(&mut v, id as i64);
    crate::error::IpcError::NotFound(crate::text::string_from_chars(v.as_slice()))
}

/// Whether an attachment may have a thumbnail: refused for types that cannot.
pub fn thumbnail_allowed(mime_type: &str) -> (r: Result<(), crate::error::IpcError>)
    ensures
        crate::thumbnail::thumbnailable(mime_type@) ==> r is Ok,
        !crate::thumbnail::thumbnailable(mime_type@) ==> (r matches Err(
            crate::error::IpcError::BadRequest(m),
        ) && m@ == "附件类型不支持缩略图: "@ + mime_type@),
{
    if crate::thumbnail::is_thumbnailable_image(mime_type) {
        Ok(())
    } else {
        let mut m = String::from_str("附件类型不支持缩略图: ");
        m.append(mime_type);
        Err(crate::error::IpcError::BadRequest(m))
    }
}

/// The longest side asked of a thumbnail, the default when not asked.
pub fn thumbnail_size(max_size: Option<u32>) -> (r: u32)
    ensures
        r == match max_size {
            Some(n) => n,
            None => crate::thumbnail::DEFAULT_THUMBNAIL_SIZE,
        },
{
    match max_size {
        Some(n) => n,
        None => crate::thumbnail::DEFAULT_THUMBNAIL_SIZE,
    }
}

/// The thumbnail answer for the bytes made; when none were made the image is too small and
/// the thumbnail is not found.
pub fn thumbnail_answer(thumb: Option<Vec<u8>>) -> (r: Result<ThumbnailResponse, crate::error::IpcError>)
    ensures
        thumb matches Some(b) ==> (r matches Ok(t) && t.blob == b && t.mime_type@ == "image/jpeg"@),
        thumb is None ==> (r matches Err(crate::error::IpcError::NotFound(m)) && m@ == "原图过小，无需缩略图"@),
{
    match thumb {
        Some(b) => Ok(ThumbnailResponse { blob: b, mime_type: String::from_str("image/jpeg") }),
        None => Err(crate::error::IpcError::NotFound(String::from_str("原图过小，无需缩略图"))),
    }
}

/// The error for a database attachment stored without bytes.
pub fn missing_blob() -> (e: crate::error::IpcError)
    ensures
        e matches crate::error::IpcError::Internal(m) && m@ == "DATABASE 附件缺少 blob"@,
{
    crate::error::IpcError::Internal(String::from_str("DATABASE 附件缺少 blob"))
}

/// The thumbnail of an attachment's bytes: refused for a type that cannot have one; a JPEG
/// whose longest side is at most `max_size` (the default when not given); not found when the
/// image is too small; an internal error when it cannot be read or encoded.
pub fn make_thumbnail(blob: &[u8], mime_type: &str, max_size: Option<u32>) -> (r: Result<
    ThumbnailResponse,
    crate::error::IpcError,
>)
    ensures
        !crate::thumbnail::thumbnailable(mime_type@) ==> (r matches Err(
            crate::error::IpcError::BadRequest(m),
        ) && m@ == "附件类型不支持缩略图: "@ + mime_type@),
        crate::thumbnail::thumbnailable(mime_type@) ==> match crate::thumbnail::decoded_size(
            blob@,
        ) {
            None => r matches Err(crate::error::IpcError::Internal(m)) && exists|
                f: crate::thumbnail::DecodeFailure,
            | m@ == #[trigger] crate::thumbnail::decode_message(f),
            Some(d) => if crate::thumbnail::shorter_side(d) < crate::thumbnail::MIN_ORIGINAL_SIZE {
                r matches Err(crate::error::IpcError::NotFound(m)) && m@ == "原图过小，无需缩略图"@
            } else {
                match crate::thumbnail::scaled_jpeg(
                    blob@,
                    match max_size {
                        Some(n) => n,
                        None => crate::thumbnail::DEFAULT_THUMBNAIL_SIZE,
                    },
                ) {
                    Some(b) => r matches Ok(t) && t.blob@ == b && t.mime_type@ == "image/jpeg"@,
                    None => r matches Err(crate::error::IpcError::Internal(m)) && m@.len() >= 9
                        && m@.take(9) == "编码缩略图失败: "@,
                }
            },
        },
{
    match thumbnail_allowed(mime_type) {
        Ok(()) => {},
        Err(e) => return Err(e),
    }
    proof {
        crate::thumbnail::lemma_thumbnailable_is_image(mime_type@);
    }
    let size = thumbnail_size(max_size);
    match crate::thumbnail::generate_thumbnail(blob, mime_type, size) {
        Ok(t) => thumbnail_answer(t),
        Err(m) => Err(crate::error::IpcError::Internal(m)),
    }
}

/// Removes a memo's vector (bound: the memo id).
pub const DELETE_MEMO_VEC: &'static str = "DELETE FROM memo_vec WHERE rowid = ?";

/// Stores a memo's vector (bound: the memo id, the vector as JSON).
pub const INSERT_MEMO_VEC: &'static str = "INSERT INTO memo_vec(rowid, embedding) VALUES (?, ?)";

/// How a memo's vector is kept in step with it.
#[derive(Debug, Clone, Copy, PartialEq, Eq)]
pub enum EmbeddingSync {
    /// Compute the vector of the content, then delete and insert it (the index has no update).
    Upsert,
    /// Delete the vector.
    Delete,
}

/// Whether a memo in the given state has a vector: only a normal (not archived) one.
pub fn should_store_embedding(row_status: RowStatus) -> (r: bool)
    ensures
        r == (row_status == RowStatus::Normal),
{
    match row_status {
        RowStatus::Normal => true,
        RowStatus::Archived => false,
    }
}

/// What keeping a memo's vector takes: an upsert for a normal memo, a delete otherwise.
pub fn embedding_sync(row_status: RowStatus) -> (r: EmbeddingSync)
    ensures
        (r == EmbeddingSync::Upsert) == (row_status == RowStatus::Normal),
{
    if should_store_embedding(row_status) {
        EmbeddingSync::Upsert
    } else {
        EmbeddingSync::Delete
    }
}

/// Whether creating a memo is followed by keeping its vector: not for a comment.
pub fn sync_after_create(parent_id: Option<i32>) -> (r: bool)
    ensures
        r == (parent_id is None),
{
    parent_id.is_none()
}

/// Whether an update is followed by keeping the memo's vector: when it changed the content
/// or the status, and the memo is not a comment.
pub fn sync_after_update(content: &Option<String>, row_status: Option<RowStatus>, parent_id: Option<i32>) -> (r: bool)
    ensures
        r == ((content is Some || row_status is Some) && parent_id is None),
{
    (content.is_some() || row_status.is_some()) && parent_id.is_none()
}

/// The health check's answer for the number of memos the store counted, or its error.
pub fn ping_message(count: Result<i32, crate::error::CoreError>) -> (r: String)
    ensures
        count matches Ok(n) ==> r@ == "Store 就绪，当前 memo 数: "@ + crate::text::signed_decimal(
            n as int,
        ),
        count matches Err(e) ==> r@ == "Store 错误: "@ + crate::error::core_message(e),
{
    match count {
        Ok(n) => {
            let mut v = crate::text::chars_of("Store 就绪，当前 memo 数: ");
            crate::text::push_signed_decimal(&mut v, n as i64);
            crate::text::string_from_chars(v.as_slice())
        },
        Err(e) => {
            let m = e.message();
            crate::error::with_prefix("Store 错误: ", &m)
        },
    }
}

} // verus!
