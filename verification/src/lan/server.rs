//! What the sharing server answers: the decisions of its request handlers, apart from the
//! store reads they are made on.
//!
//! Only public memos are shared, and a peer sees only those its access rules let through.
//! Refusals are answered with a status code and a message: 404 for what does not exist,
//! 403 for what the peer may not see.
use crate::attachment::Attachment;
use crate::lan::auth::{is_memo_visible, visible_pred, visible_to, AclRule};
use crate::lan::protocol::{
    err, ok, RemoteAttachmentSummary, RemoteMemo, RemoteMemoSummary, Response, ResponseData,
};
use crate::markdown::{extract_tags, push_unique, string_views, tags_of};
use crate::memo::{clone_memo, FindMemo, Memo};
use crate::text::{chars_of, squeeze_whitespace, squeeze_ws, string_from_chars, sub_chars};
use crate::types::Visibility;
use vstd::prelude::*;

verus! {

/// Largest page of a memo list.
pub const MAX_PAGE_LIMIT: u32 = 200;

/// Length of the snippet of a listed memo, in characters.
pub const LIST_SNIPPET_LENGTH: usize = 200;

/// How many public memos a list request reads before filtering and paging.
pub const LIST_SCAN_LIMIT: i32 = 5000;

/// How many public memos a profile request reads to collect tags.
pub const PROFILE_SCAN_LIMIT: i32 = 1000;

/// Markdown marker characters that a snippet shows as spaces.
pub open spec fn snippet_marker(c: char) -> bool {
    c == '#' || c == '*' || c == '_' || c == '`' || c == '~' || c == '>' || c == '|'
}

/// The content with marker characters turned into spaces.
pub open spec fn unmarked(s: Seq<char>) -> Seq<char> {
    s.map_values(|c: char| if snippet_marker(c) { ' ' } else { c })
}

/// The snippet of a listed memo: markers blanked, whitespace collapsed, then cut at `max`
/// characters followed by `…` when longer.
pub open spec fn list_snippet(s: Seq<char>, max: nat) -> Seq<char> {
    let collapsed = squeeze_ws(unmarked(s));
    if collapsed.len() <= max {
        collapsed
    } else {
        collapsed.take(max as int).push('\u{2026}')
    }
}

/// The snippet of a listed memo (see `list_snippet`).
pub fn snippet_text(content: &str, max: usize) -> (r: String)
    ensures
        r@ == list_snippet(content@, max as nat),
{
    let c = chars_of(content);
    let mut cleaned: Vec<char> = Vec::new();
    let mut i: usize = 0;
    while i < c.len()
        invariant
            i <= c.len(),
            cleaned@ == unmarked(c@.take(i as int)),
        decreases c.len() - i,
    {
        let ch = c[i];
        if ch == '#' || ch == '*' || ch == '_' || ch == '`' || ch == '~' || ch == '>' || ch == '|' {
            cleaned.push(' ');
        } else {
            cleaned.push(ch);
        }
        i = i + 1;
        assert(unmarked(c@.take(i as int)) =~= unmarked(c@.take(i - 1)).push(
            if snippet_marker(ch) {
                ' '
            } else {
                ch
            },
        ));
    }
    assert(c@.take(c.len() as int) =~= c@);
    let collapsed = squeeze_whitespace(cleaned.as_slice());
    if collapsed.len() <= max {
        string_from_chars(collapsed.as_slice())
    } else {
        let mut t = sub_chars(collapsed.as_slice(), 0, max);
        t.push('\u{2026}');
        string_from_chars(t.as_slice())
    }
}

/// The page size of a list request: the asked limit kept between 1 and 200.
pub fn clamp_page_limit(limit: u32) -> (r: u32)
    ensures
        r == if limit < 1 {
            1
        } else if limit > MAX_PAGE_LIMIT {
            MAX_PAGE_LIMIT
        } else {
            limit
        },
{
    if limit < 1 {
        1
    } else if limit > MAX_PAGE_LIMIT {
        MAX_PAGE_LIMIT
    } else {
        limit
    }
}

/// The rows from `offset` on, at most `limit` of them; none when `offset` is past the end.
pub open spec fn page_slice(rows: Seq<Memo>, offset: nat, limit: nat) -> Seq<Memo> {
    if offset >= rows.len() {
        seq![]
    } else if offset + limit <= rows.len() {
        rows.subrange(offset as int, (offset + limit) as int)
    } else {
        rows.skip(offset as int)
    }
}

/// One page of rows (see `page_slice`).
pub fn take_page(rows: &Vec<Memo>, offset: u32, limit: u32) -> (r: Vec<Memo>)
    ensures
        r@ == page_slice(rows@, offset as nat, limit as nat),
{
    let n = rows.len();
    if offset as u64 >= n as u64 {
        return Vec::new();
    }
    let start = offset as usize;
    let end: usize = if (offset as u64) + (limit as u64) <= n as u64 {
        start + limit as usize
    } else {
        n
    };
    let mut out: Vec<Memo> = Vec::new();
    let mut k: usize = start;
    while k < end
        invariant
            start <= k <= end <= n,
            n == rows.len(),
            out@ == rows@.subrange(start as int, k as int),
        decreases end - k,
    {
        out.push(clone_memo(&rows[k]));
        k = k + 1;
        assert(out@ =~= rows@.subrange(start as int, k as int));
    }
    assert(rows@.skip(start as int) =~= rows@.subrange(start as int, n as int));
    out
}

/// The filter a list request reads the store with: public memos, contents included, at most
/// `LIST_SCAN_LIMIT`, pinned first then by update time, with the tag filter when given.
pub fn list_memos_filter(tag_filter: &Option<Vec<String>>) -> (f: FindMemo)
    ensures
        f.visibility_list@ == seq![Visibility::Public],
        !f.exclude_content,
        f.limit == Some(LIST_SCAN_LIMIT),
        f.order_by_pinned,
        f.order_by_updated_ts,
        f.tag_search@ == match tag_filter {
            Some(t) => t@,
            None => Seq::<String>::empty(),
        },
        f.id is None,
        f.uid is None,
        f.row_status is None,
        f.offset is None,
        f.fts_query is None,
        f.content_contains is None,
        f.vector_embedding is None,
{
    let mut f = FindMemo::all();
    let mut vis: Vec<Visibility> = Vec::new();
    vis.push(Visibility::Public);
    f.visibility_list = vis;
    f.exclude_content = false;
    f.limit = Some(LIST_SCAN_LIMIT);
    f.order_by_pinned = true;
    f.order_by_updated_ts = true;
    if let Some(tags) = tag_filter {
        let mut copy: Vec<String> = Vec::new();
        let mut k: usize = 0;
        while k < tags.len()
            invariant
                k <= tags.len(),
                copy@ == tags@.take(k as int),
            decreases tags.len() - k,
        {
            copy.push(tags[k].clone());
            k = k + 1;
            assert(copy@ =~= tags@.take(k as int));
        }
        assert(tags@.take(tags.len() as int) =~= tags@);
        f.tag_search = copy;
    }
    f
}

/// The memos of a list answer and the total count: the rows visible to the peer, the total
/// of those (cut to 32 bits), and the page of them from `offset` with the clamped limit.
pub fn list_memos_page(
    rows: Vec<Memo>,
    peer_id: &str,
    rules: &[AclRule],
    offset: u32,
    limit: u32,
) -> (r: (Vec<Memo>, u32))
    ensures
        ({
            let visible = rows@.filter(visible_pred(peer_id@, rules@));
            &&& r.0@ == page_slice(visible, offset as nat, clamp_limit_spec(limit) as nat)
            &&& r.1 == visible.len() as u32
        }),
{
    let lim = clamp_page_limit(limit);
    let filtered = crate::lan::auth::filter_memos_for_peer(rows, peer_id, rules);
    let total = filtered.len() as u32;
    let page = take_page(&filtered, offset, lim);
    (page, total)
}

/// The clamped page size, as a specification.
pub open spec fn clamp_limit_spec(limit: u32) -> u32 {
    if limit < 1 {
        1
    } else if limit > MAX_PAGE_LIMIT {
        MAX_PAGE_LIMIT
    } else {
        limit
    }
}

/// The list entry of a memo: its snippet of `LIST_SNIPPET_LENGTH` characters and its tags.
pub fn memo_summary(m: &Memo, has_attachments: bool) -> (r: RemoteMemoSummary)
    ensures
        r.uid@ == m.uid@,
        r.created_ts == m.created_ts,
        r.updated_ts == m.updated_ts,
        r.pinned == m.pinned,
        r.snippet@ == list_snippet(m.content@, LIST_SNIPPET_LENGTH as nat),
        string_views(r.tags@) == tags_of(m.content@),
        r.has_attachments == has_attachments,
{
    RemoteMemoSummary {
        uid: m.uid.clone(),
        created_ts: m.created_ts,
        updated_ts: m.updated_ts,
        pinned: m.pinned,
        snippet: snippet_text(m.content.as_str(), LIST_SNIPPET_LENGTH),
        tags: extract_tags(m.content.as_str()),
        has_attachments,
    }
}

/// `r` summarises memo `m`: its uid, times and pin copied, its snippet and tags from the
/// content, and whether it has attachments.
pub open spec fn summarises(r: RemoteMemoSummary, m: Memo, has_attachments: bool) -> bool {
    &&& r.uid@ == m.uid@
    &&& r.created_ts == m.created_ts
    &&& r.updated_ts == m.updated_ts
    &&& r.pinned == m.pinned
    &&& r.snippet@ == list_snippet(m.content@, LIST_SNIPPET_LENGTH as nat)
    &&& string_views(r.tags@) == tags_of(m.content@)
    &&& r.has_attachments == has_attachments
}

/// The answer to a list request: the summaries of the page, in order (`has_attachments[k]`
/// says whether memo `k` of the page has attachments), and the number of visible memos.
pub fn memo_list_response(page: &Vec<Memo>, has_attachments: &Vec<bool>, total: u32) -> (r:
    ResponseData)
    requires
        page.len() == has_attachments.len(),
    ensures
        r matches ResponseData::MemoList { memos, total: t } && t == total && memos.len()
            == page.len() && forall|k: int|
            0 <= k < page.len() ==> summarises(
                #[trigger] memos@[k],
                page@[k],
                has_attachments@[k],
            ),
{
    let mut memos: Vec<RemoteMemoSummary> = Vec::new();
    let mut k: usize = 0;
    while k < page.len()
        invariant
            k <= page.len(),
            page.len() == has_attachments.len(),
            memos.len() == k,
            forall|q: int|
                0 <= q < k ==> summarises(#[trigger] memos@[q], page@[q], has_attachments@[q]),
        decreases page.len() - k,
    {
        let s = memo_summary(&page[k], has_attachments[k]);
        memos.push(s);
        k = k + 1;
    }
    ResponseData::MemoList { memos, total }
}

/// Law: the answer to a list request holds, for rows that a listing gave, the number of
/// memos the peer may see and the summaries of the asked page of them, in order: the page
/// starts at `offset` and holds at most the clamped limit.
pub proof fn law_list_response(
    rows: Seq<Memo>,
    peer_id: Seq<char>,
    rules: Seq<AclRule>,
    offset: u32,
    limit: u32,
    page: Seq<Memo>,
    total: u32,
    has_attachments: Seq<bool>,
    memos: Seq<RemoteMemoSummary>,
)
    requires
        page == page_slice(rows.filter(visible_pred(peer_id, rules)), offset as nat, clamp_limit_spec(limit) as nat),
        total == rows.filter(visible_pred(peer_id, rules)).len() as u32,
        has_attachments.len() == page.len(),
        memos.len() == page.len(),
        forall|k: int| 0 <= k < page.len() ==> summarises(#[trigger] memos[k], page[k], has_attachments[k]),
    ensures
        memos.len() <= clamp_limit_spec(limit),
        forall|k: int|
            0 <= k < memos.len() ==> summarises(
                #[trigger] memos[k],
                rows.filter(visible_pred(peer_id, rules))[offset + k],
                has_attachments[k],
            ),
{
    let visible = rows.filter(visible_pred(peer_id, rules));
    assert forall|k: int| 0 <= k < memos.len() implies summarises(
        #[trigger] memos[k],
        visible[offset + k],
        has_attachments[k],
    ) by {
        assert(page[k] == visible[offset + k]);
    }
}

/// `prefix` followed by `uid`.
fn message_with(prefix: &str, uid: &str) -> (r: String)
    ensures
        r@ == prefix@ + uid@,
{
    let mut s = String::from_str(prefix);
    s.append(uid);
    s
}

/// A refusal: a status code and a message.
pub open spec fn refusal<T>(r: Result<T, (u16, String)>, code: u16, msg: Seq<char>) -> bool {
    r matches Err(e) && e.0 == code && e.1@ == msg
}

/// The memo a `GetMemo` request may be answered with: 404 when there is none with the uid,
/// 403 when it is not public or not visible to the peer.
pub fn memo_access(memo: Option<Memo>, uid: &str, peer_id: &str, rules: &[AclRule]) -> (r: Result<
    Memo,
    (u16, String),
>)
    ensures
        match memo {
            None => refusal(r, 404, "memo not found: "@ + uid@),
            Some(m) => if m.visibility != Visibility::Public {
                refusal(r, 403, "memo not public"@)
            } else if !visible_to(m.content@, peer_id@, rules@) {
                refusal(r, 403, "memo not visible to peer"@)
            } else {
                r == Ok::<Memo, (u16, String)>(m)
            },
        },
{
    match memo {
        None => Err((404, message_with("memo not found: ", uid))),
        Some(m) => {
            let public = match m.visibility {
                Visibility::Public => true,
                _ => false,
            };
            if !public {
                Err((403, String::from_str("memo not public")))
            } else if !is_memo_visible(&m, peer_id, rules) {
                Err((403, String::from_str("memo not visible to peer")))
            } else {
                Ok(m)
            }
        },
    }
}

/// The attachment a `GetAttachment` request is about: 404 when there is none with the uid.
pub fn attachment_found(att: Option<Attachment>, uid: &str) -> (r: Result<
    Attachment,
    (u16, String),
>)
    ensures
        att is None ==> refusal(r, 404, "attachment not found: "@ + uid@),
        att matches Some(a) ==> r == Ok::<Attachment, (u16, String)>(a),
{
    match att {
        None => Err((404, message_with("attachment not found: ", uid))),
        Some(a) => Ok(a),
    }
}

/// Whether an attachment may be sent to the peer, given the memo it belongs to (`memo_id`)
/// and that memo as read from the store (`memo`): only an attachment of an existing public
/// memo visible to the peer may, every other case is refused with 403.
pub fn attachment_access(
    memo_id: Option<i32>,
    memo: Option<Memo>,
    peer_id: &str,
    rules: &[AclRule],
) -> (r: Result<(), (u16, String)>)
    ensures
        match (memo_id, memo) {
            (None, _) => refusal(r, 403, "attachment not associated with any memo"@),
            (Some(_), None) => refusal(r, 403, "associated memo not found"@),
            (Some(_), Some(m)) => if m.visibility != Visibility::Public {
                refusal(r, 403, "associated memo not public"@)
            } else if !visible_to(m.content@, peer_id@, rules@) {
                refusal(r, 403, "associated memo not visible to peer"@)
            } else {
                r is Ok
            },
        },
{
    match memo_id {
        None => Err((403, String::from_str("attachment not associated with any memo"))),
        Some(_) => match memo {
            None => Err((403, String::from_str("associated memo not found"))),
            Some(m) => {
                let public = match m.visibility {
                    Visibility::Public => true,
                    _ => false,
                };
                if !public {
                    Err((403, String::from_str("associated memo not public")))
                } else if !is_memo_visible(&m, peer_id, rules) {
                    Err((403, String::from_str("associated memo not visible to peer")))
                } else {
                    Ok(())
                }
            },
        },
    }
}

/// The metadata of an attachment sent to a peer; the size is reinterpreted as unsigned.
pub fn remote_attachment(a: &Attachment) -> (r: RemoteAttachmentSummary)
    ensures
        r.uid@ == a.uid@,
        r.filename@ == a.filename@,
        r.mime_type@ == a.mime_type@,
        r.size == a.size as u64,
{
    RemoteAttachmentSummary {
        uid: a.uid.clone(),
        filename: a.filename.clone(),
        mime_type: a.mime_type.clone(),
        size: a.size as u64,
    }
}

/// The full memo sent to a peer, with the metadata of its attachments in their order.
pub fn remote_memo(memo: Memo, attachments: &Vec<Attachment>) -> (r: RemoteMemo)
    ensures
        r.uid == memo.uid,
        r.created_ts == memo.created_ts,
        r.updated_ts == memo.updated_ts,
        r.pinned == memo.pinned,
        r.content == memo.content,
        r.attachments.len() == attachments.len(),
        forall|k: int|
            0 <= k < attachments.len() ==> {
                &&& (#[trigger] r.attachments@[k]).uid@ == attachments@[k].uid@
                &&& r.attachments@[k].filename@ == attachments@[k].filename@
                &&& r.attachments@[k].mime_type@ == attachments@[k].mime_type@
                &&& r.attachments@[k].size == attachments@[k].size as u64
            },
{
    let mut list: Vec<RemoteAttachmentSummary> = Vec::new();
    let mut k: usize = 0;
    while k < attachments.len()
        invariant
            k <= attachments.len(),
            list.len() == k,
            forall|q: int|
                0 <= q < k ==> {
                    &&& (#[trigger] list@[q]).uid@ == attachments@[q].uid@
                    &&& list@[q].filename@ == attachments@[q].filename@
                    &&& list@[q].mime_type@ == attachments@[q].mime_type@
                    &&& list@[q].size == attachments@[q].size as u64
                },
        decreases attachments.len() - k,
    {
        list.push(remote_attachment(&attachments[k]));
        k = k + 1;
    }
    RemoteMemo {
        uid: memo.uid,
        created_ts: memo.created_ts,
        updated_ts: memo.updated_ts,
        pinned: memo.pinned,
        content: memo.content,
        attachments: list,
    }
}

/// The tags of the memos, each once, in order of first appearance: the tags of each memo in
/// turn, skipping those seen before.
pub open spec fn unique_tags_from(contents: Seq<Memo>, seen: Seq<Seq<char>>) -> Seq<Seq<char>>
    decreases contents.len(),
{
    if contents.len() == 0 {
        seen
    } else {
        unique_tags_from(contents.drop_first(), tags_of(contents[0].content@).remove_duplicates(seen))
    }
}

/// The tags of a profile: those of the memos, each once, in order of first appearance.
pub fn profile_tags(memos: &Vec<Memo>) -> (r: Vec<String>)
    ensures
        string_views(r@) == unique_tags_from(memos@, seq![]),
{
    let mut out: Vec<String> = Vec::new();
    let mut k: usize = 0;
    assert(string_views(out@) =~= seq![]);
    assert(memos@.skip(0) =~= memos@);
    while k < memos.len()
        invariant
            k <= memos.len(),
            unique_tags_from(memos@, seq![]) == unique_tags_from(
                memos@.skip(k as int),
                string_views(out@),
            ),
        decreases memos.len() - k,
    {
        let tags = extract_tags(memos[k].content.as_str());
        let ghost all = string_views(tags@);
        let ghost seen0 = string_views(out@);
        let mut j: usize = 0;
        assert(all.skip(0) =~= all);
        while j < tags.len()
            invariant
                j <= tags.len(),
                all == string_views(tags@),
                all.remove_duplicates(seen0) == all.skip(j as int).remove_duplicates(
                    string_views(out@),
                ),
            decreases tags.len() - j,
        {
            let ghost rest = all.skip(j + 1);
            assert(all.skip(j as int) =~= seq![tags@[j as int]@] + rest);
            push_unique(&mut out, tags[j].clone(), Ghost(rest));
            j = j + 1;
        }
        assert(all.skip(tags.len() as int) =~= Seq::<Seq<char>>::empty());
        assert(memos@.skip(k as int).drop_first() =~= memos@.skip(k + 1));
        assert(memos@.skip(k as int)[0] == memos@[k as int]);
        k = k + 1;
    }
    assert(memos@.skip(k as int) =~= Seq::<Memo>::empty());
    out
}

/// The answer to a request: the data, or the refusal's code and message.
pub fn respond(result: Result<ResponseData, (u16, String)>) -> (r: Response)
    ensures
        match result {
            Ok(d) => r == Response::Success { data: d },
            Err(e) => r == Response::Failure { code: e.0, message: e.1 },
        },
{
    match result {
        Ok(data) => ok(data),
        Err((code, msg)) => err(code, msg),
    }
}

/// The statement that counts the public memos that are not archived.
pub fn public_count_query() -> (q: crate::sql::SqlQuery)
    ensures
        q.sql@ == "SELECT count(*) FROM memo WHERE visibility = 'PUBLIC' AND row_status = 'NORMAL'"@,
        q.args@.len() == 0,
{
    crate::sql::statement(
        "SELECT count(*) FROM memo WHERE visibility = 'PUBLIC' AND row_status = 'NORMAL'",
        Vec::new(),
    )
}

/// The statement that counts the attachments of a memo.
pub fn attachment_count_query(memo_id: i32) -> (q: crate::sql::SqlQuery)
    ensures
        q.sql@ == "SELECT count(*) FROM attachment WHERE memo_id = ?1"@,
        crate::sql::arg_views(q.args@) == seq![crate::sql::SqlArg::Integer(memo_id as int)],
{
    let q = crate::sql::statement(
        "SELECT count(*) FROM attachment WHERE memo_id = ?1",
        vec![crate::sql::SqlValue::Integer(memo_id as i64)],
    );
    assert(crate::sql::arg_views(q.args@) =~= seq![crate::sql::SqlArg::Integer(memo_id as int)]);
    q
}

/// The memos a profile request reads to collect tags: public ones, newest first, at most
/// `PROFILE_SCAN_LIMIT`.
pub fn profile_filter() -> (f: FindMemo)
    ensures
        f.visibility_list@ == seq![Visibility::Public],
        !f.exclude_content,
        f.limit == Some(PROFILE_SCAN_LIMIT),
        f.id is None,
        f.uid is None,
        f.id_list@.len() == 0,
        f.uid_list@.len() == 0,
        f.row_status is None,
        f.content_contains is None,
        f.fts_query is None,
        f.vector_embedding is None,
        f.vector_top_k is None,
        f.tag_search@.len() == 0,
        f.created_ts_after is None,
        f.created_ts_before is None,
        f.updated_ts_after is None,
        f.updated_ts_before is None,
        f.offset is None,
        !f.order_by_pinned,
        !f.order_by_updated_ts,
        !f.order_by_time_asc,
{
    let mut f = FindMemo::all();
    f.visibility_list = vec![Visibility::Public];
    f.limit = Some(PROFILE_SCAN_LIMIT);
    f
}

} // verus!
