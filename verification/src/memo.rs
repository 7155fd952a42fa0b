//! Memos: the record types and the statements that store and query them.
//!
//! Queries are built here as SQL text with positional arguments; running them against the
//! database is left to the caller. What the database cannot do (exact tag matching, the
//! order of a nearest-neighbour search, paging after tag matching) is done by `finish_list`
//! on the rows the query returned.
use crate::error::CoreError;
use crate::markdown::{extract_tags, string_views, tags_of};
use crate::sql::{arg_views, int_args, placeholders, text_args, SqlArg, SqlBuilder, SqlQuery, SqlValue};
use crate::text::{chars_of, extend_chars, push_signed_decimal, signed_decimal, string_from_chars};
use crate::types::{row_status_name, valid_uid, validate_uid, visibility_name, RowStatus, Visibility};
use vstd::prelude::*;

verus! {

/// A memo as stored. `payload` and `location` hold their JSON text.
#[derive(Debug, Clone)]
pub struct Memo {
    pub id: i32,
    pub uid: String,
    pub created_ts: i64,
    pub updated_ts: i64,
    pub row_status: RowStatus,
    pub content: String,
    pub visibility: Visibility,
    pub pinned: bool,
    pub payload: String,
    pub location: Option<String>,
}

/// A memo to create.
#[derive(Debug, Clone)]
pub struct CreateMemo {
    pub uid: String,
    pub content: String,
    pub visibility: Visibility,
    pub pinned: bool,
    pub payload: String,
    pub location: Option<String>,
}

/// Changes to one memo; `None` leaves a field as it is. For `location`, `Some(None)` clears it.
#[derive(Debug, Clone)]
pub struct UpdateMemo {
    pub id: i32,
    pub uid: Option<String>,
    pub row_status: Option<RowStatus>,
    pub content: Option<String>,
    pub visibility: Option<Visibility>,
    pub pinned: Option<bool>,
    pub payload: Option<String>,
    pub location: Option<Option<String>>,
}

/// Memo query filter.
#[derive(Debug, Clone)]
pub struct FindMemo {
    pub id: Option<i32>,
    pub uid: Option<String>,
    pub id_list: Vec<i32>,
    pub uid_list: Vec<String>,
    pub row_status: Option<RowStatus>,
    pub visibility_list: Vec<Visibility>,
    pub exclude_content: bool,
    /// Substring of the content (SQL `LIKE`).
    pub content_contains: Option<String>,
    /// Full-text query; results come by relevance.
    pub fts_query: Option<String>,
    /// Embedding (JSON text) for a nearest-neighbour search.
    pub vector_embedding: Option<String>,
    /// Size of the nearest-neighbour search (20 when absent).
    pub vector_top_k: Option<u32>,
    /// Tags that every returned memo must carry, matched exactly.
    pub tag_search: Vec<String>,
    pub created_ts_after: Option<i64>,
    pub created_ts_before: Option<i64>,
    pub updated_ts_after: Option<i64>,
    pub updated_ts_before: Option<i64>,
    pub limit: Option<i32>,
    pub offset: Option<i32>,
    pub order_by_pinned: bool,
    pub order_by_updated_ts: bool,
    pub order_by_time_asc: bool,
}

impl FindMemo {
    /// A filter that matches every memo, newest first.
    pub fn all() -> (f: FindMemo)
        ensures
            f.id is None,
            f.uid is None,
            f.id_list@.len() == 0,
            f.uid_list@.len() == 0,
            f.row_status is None,
            f.visibility_list@.len() == 0,
            !f.exclude_content,
            f.content_contains is None,
            f.fts_query is None,
            f.vector_embedding is None,
            f.vector_top_k is None,
            f.tag_search@.len() == 0,
            f.created_ts_after is None,
            f.created_ts_before is None,
            f.updated_ts_after is None,
            f.updated_ts_before is None,
            f.limit is None,
            f.offset is None,
            !f.order_by_pinned,
            !f.order_by_updated_ts,
            !f.order_by_time_asc,
    {
        FindMemo {
            id: None,
            uid: None,
            id_list: Vec::new(),
            uid_list: Vec::new(),
            row_status: None,
            visibility_list: Vec::new(),
            exclude_content: false,
            content_contains: None,
            fts_query: None,
            vector_embedding: None,
            vector_top_k: None,
            tag_search: Vec::new(),
            created_ts_after: None,
            created_ts_before: None,
            updated_ts_after: None,
            updated_ts_before: None,
            limit: None,
            offset: None,
            order_by_pinned: false,
            order_by_updated_ts: false,
            order_by_time_asc: false,
        }
    }
}

// ---------------------------------------------------------------------------
// Specification of the list query
// ---------------------------------------------------------------------------

/// A piece of a statement: text and the arguments its placeholders take.
pub type Piece = (Seq<char>, Seq<SqlArg>);

pub open spec fn no_piece() -> Piece {
    (seq![], seq![])
}

pub open spec fn join_pieces(a: Piece, b: Piece) -> Piece {
    (a.0 + b.0, a.1 + b.1)
}

pub open spec fn visibility_args(v: Seq<Visibility>) -> Seq<SqlArg> {
    v.map_values(|x: Visibility| SqlArg::Text(visibility_name(x)))
}

/// Escaped form of one character for a `LIKE` pattern with `\` as escape character.
pub open spec fn escape_like_char(c: char) -> Seq<char> {
    if c == '\\' {
        seq!['\\', '\\']
    } else if c == '%' {
        seq!['\\', '%']
    } else if c == '_' {
        seq!['\\', '_']
    } else {
        seq![c]
    }
}

/// `s` with `\`, `%` and `_` escaped by a backslash.
pub open spec fn escape_like(s: Seq<char>) -> Seq<char>
    decreases s.len(),
{
    if s.len() == 0 {
        seq![]
    } else {
        escape_like(s.drop_last()) + escape_like_char(s.last())
    }
}

/// Whether content is left out of the rows: asked for, and no tag matching needs it.
pub open spec fn excludes_content(f: FindMemo) -> bool {
    f.exclude_content && f.tag_search@.len() == 0
}

pub open spec fn select_piece(f: FindMemo) -> Piece {
    (
        "SELECT id, uid, created_ts, updated_ts, row_status, "@ + (if excludes_content(f) {
            "'' AS content, "@
        } else {
            "content, "@
        }) + "visibility, pinned, payload, location FROM memo WHERE 1=1"@,
        seq![],
    )
}

pub open spec fn id_piece(f: FindMemo) -> Piece {
    match f.id {
        Some(id) => (" AND id = ?"@, seq![SqlArg::Integer(id as int)]),
        None => no_piece(),
    }
}

pub open spec fn uid_piece(f: FindMemo) -> Piece {
    match f.uid {
        Some(u) => (" AND uid = ?"@, seq![SqlArg::Text(u@)]),
        None => no_piece(),
    }
}

pub open spec fn id_list_piece(f: FindMemo) -> Piece {
    if f.id_list@.len() > 0 {
        (" AND id IN ("@ + placeholders(f.id_list@.len()) + ")"@, int_args(f.id_list@))
    } else {
        no_piece()
    }
}

pub open spec fn uid_list_piece(f: FindMemo) -> Piece {
    if f.uid_list@.len() > 0 {
        (" AND uid IN ("@ + placeholders(f.uid_list@.len()) + ")"@, text_args(f.uid_list@))
    } else {
        no_piece()
    }
}

pub open spec fn identity_piece(f: FindMemo) -> Piece {
    join_pieces(
        join_pieces(id_piece(f), uid_piece(f)),
        join_pieces(id_list_piece(f), uid_list_piece(f)),
    )
}

pub open spec fn status_piece(f: FindMemo) -> Piece {
    join_pieces(
        match f.row_status {
            Some(rs) => (" AND row_status = ?"@, seq![SqlArg::Text(row_status_name(rs))]),
            None => no_piece(),
        },
        if f.visibility_list@.len() > 0 {
            (
                " AND visibility IN ("@ + placeholders(f.visibility_list@.len()) + ")"@,
                visibility_args(f.visibility_list@),
            )
        } else {
            no_piece()
        },
    )
}

pub open spec fn search_piece(f: FindMemo, knn: Option<Seq<i32>>) -> Piece {
    join_pieces(
        join_pieces(
            match f.content_contains {
                Some(n) => (
                    " AND content LIKE '%' || ? || '%' ESCAPE '\\'"@,
                    seq![SqlArg::Text(escape_like(n@))],
                ),
                None => no_piece(),
            },
            match f.fts_query {
                Some(q) => (
                    " AND id IN (SELECT rowid FROM memo_fts WHERE memo_fts MATCH ?)"@,
                    seq![SqlArg::Text(q@)],
                ),
                None => no_piece(),
            },
        ),
        match knn {
            Some(ids) => (" AND id IN ("@ + placeholders(ids.len()) + ")"@, int_args(ids)),
            None => no_piece(),
        },
    )
}

pub open spec fn time_piece(f: FindMemo) -> Piece {
    join_pieces(
        join_pieces(
            match f.created_ts_after {
                Some(t) => (" AND created_ts >= ?"@, seq![SqlArg::Integer(t as int)]),
                None => no_piece(),
            },
            match f.created_ts_before {
                Some(t) => (" AND created_ts < ?"@, seq![SqlArg::Integer(t as int)]),
                None => no_piece(),
            },
        ),
        join_pieces(
            match f.updated_ts_after {
                Some(t) => (" AND updated_ts >= ?"@, seq![SqlArg::Integer(t as int)]),
                None => no_piece(),
            },
            match f.updated_ts_before {
                Some(t) => (" AND updated_ts < ?"@, seq![SqlArg::Integer(t as int)]),
                None => no_piece(),
            },
        ),
    )
}

/// Full-text results come by relevance, nearest-neighbour results unordered (they are put in
/// distance order afterwards), others by time (pinned first when asked).
pub open spec fn order_text(f: FindMemo, knn: Option<Seq<i32>>) -> Seq<char> {
    if f.fts_query is Some {
        " ORDER BY (SELECT rank FROM memo_fts WHERE rowid = memo.id)"@
    } else if knn is Some {
        seq![]
    } else {
        " ORDER BY "@ + (if f.order_by_pinned {
            "pinned DESC, "@
        } else {
            seq![]
        }) + (if f.order_by_updated_ts {
            if f.order_by_time_asc {
                "updated_ts ASC"@
            } else {
                "updated_ts DESC"@
            }
        } else {
            if f.order_by_time_asc {
                "created_ts ASC"@
            } else {
                "created_ts DESC"@
            }
        })
    }
}

/// The page size: by default the neighbour count for a nearest-neighbour search.
pub open spec fn effective_limit(f: FindMemo, knn: Option<Seq<i32>>) -> Option<i32> {
    if knn is Some && f.limit is None {
        Some(
            (match f.vector_top_k {
                Some(k) => k,
                None => 20u32,
            }) as i32,
        )
    } else {
        f.limit
    }
}

/// Paging is done by the query unless tags are matched afterwards.
pub open spec fn paging_piece(f: FindMemo, knn: Option<Seq<i32>>) -> Piece {
    if f.tag_search@.len() == 0 {
        join_pieces(
            match effective_limit(f, knn) {
                Some(l) => (" LIMIT ?"@, seq![SqlArg::Integer(l as int)]),
                None => no_piece(),
            },
            match f.offset {
                Some(o) => (" OFFSET ?"@, seq![SqlArg::Integer(o as int)]),
                None => no_piece(),
            },
        )
    } else {
        no_piece()
    }
}

/// The whole list query for filter `f`, given the ids a nearest-neighbour search returned.
pub open spec fn list_query(f: FindMemo, knn: Option<Seq<i32>>) -> Piece {
    join_pieces(
        join_pieces(
            join_pieces(select_piece(f), identity_piece(f)),
            join_pieces(status_piece(f), search_piece(f, knn)),
        ),
        join_pieces(
            join_pieces(time_piece(f), (order_text(f, knn), seq![])),
            paging_piece(f, knn),
        ),
    )
}

// ---------------------------------------------------------------------------
// Building the list query
// ---------------------------------------------------------------------------

fn bind_visibilities(b: &mut SqlBuilder, v: &Vec<Visibility>)
    ensures
        final(b).text@ == old(b).text@,
        arg_views(final(b).args@) == arg_views(old(b).args@) + visibility_args(v@),
{
    let mut k: usize = 0;
    while k < v.len()
        invariant
            k <= v.len(),
            b.text@ == old(b).text@,
            arg_views(b.args@) == arg_views(old(b).args@) + visibility_args(v@.take(k as int)),
        decreases v.len() - k,
    {
        let name = v[k].as_str();
        b.bind(SqlValue::Text(name.to_owned()));
        k = k + 1;
        assert(visibility_args(v@.take(k as int)) =~= visibility_args(v@.take(k - 1)).push(
            SqlArg::Text(visibility_name(v@[k - 1])),
        ));
    }
    assert(v@.take(v.len() as int) =~= v@);
}

/// `s` with `\`, `%` and `_` escaped, for a `LIKE` pattern.
pub fn escape_like_pattern(s: &str) -> (r: String)
    ensures
        r@ == escape_like(s@),
{
    let c = chars_of(s);
    let mut out: Vec<char> = Vec::new();
    let mut k: usize = 0;
    while k < c.len()
        invariant
            k <= c.len(),
            out@ == escape_like(c@.take(k as int)),
        decreases c.len() - k,
    {
        let ch = c[k];
        if ch == '\\' {
            out.push('\\');
            out.push('\\');
        } else if ch == '%' {
            out.push('\\');
            out.push('%');
        } else if ch == '_' {
            out.push('\\');
            out.push('_');
        } else {
            out.push(ch);
        }
        k = k + 1;
        assert(c@.take(k as int).drop_last() =~= c@.take(k - 1));
        assert(out@ =~= escape_like(c@.take(k as int)));
    }
    assert(c@.take(c.len() as int) =~= c@);
    crate::text::string_from_chars(out.as_slice())
}

fn push_id_uid(b: &mut SqlBuilder, f: &FindMemo)
    ensures
        final(b).text@ == old(b).text@ + id_piece(*f).0 + uid_piece(*f).0,
        arg_views(final(b).args@) == arg_views(old(b).args@) + id_piece(*f).1 + uid_piece(*f).1,
{
    let ghost t0 = b.text@;
    let ghost a0 = arg_views(b.args@);
    if let Some(id) = f.id {
        b.push_str(" AND id = ?");
        b.bind(SqlValue::Integer(id as i64));
    }
    assert(b.text@ =~= t0 + id_piece(*f).0);
    assert(arg_views(b.args@) =~= a0 + id_piece(*f).1);
    let ghost t1 = b.text@;
    let ghost a1 = arg_views(b.args@);
    if let Some(uid) = &f.uid {
        b.push_str(" AND uid = ?");
        b.bind(SqlValue::Text(uid.clone()));
    }
    assert(b.text@ =~= t1 + uid_piece(*f).0);
    assert(arg_views(b.args@) =~= a1 + uid_piece(*f).1);
}

fn push_id_list(b: &mut SqlBuilder, f: &FindMemo)
    ensures
        final(b).text@ == old(b).text@ + id_list_piece(*f).0,
        arg_views(final(b).args@) == arg_views(old(b).args@) + id_list_piece(*f).1,
{
    let ghost t0 = b.text@;
    let ghost a0 = arg_views(b.args@);
    if f.id_list.len() > 0 {
        b.push_str(" AND id IN (");
        b.push_placeholders(f.id_list.len());
        b.push_str(")");
        b.bind_ints(&f.id_list);
    }
    assert(b.text@ =~= t0 + id_list_piece(*f).0);
    assert(arg_views(b.args@) =~= a0 + id_list_piece(*f).1);
}

fn push_uid_list(b: &mut SqlBuilder, f: &FindMemo)
    ensures
        final(b).text@ == old(b).text@ + uid_list_piece(*f).0,
        arg_views(final(b).args@) == arg_views(old(b).args@) + uid_list_piece(*f).1,
{
    let ghost t0 = b.text@;
    let ghost a0 = arg_views(b.args@);
    if f.uid_list.len() > 0 {
        b.push_str(" AND uid IN (");
        b.push_placeholders(f.uid_list.len());
        b.push_str(")");
        b.bind_texts(&f.uid_list);
    }
    assert(b.text@ =~= t0 + uid_list_piece(*f).0);
    assert(arg_views(b.args@) =~= a0 + uid_list_piece(*f).1);
}

fn push_identity(b: &mut SqlBuilder, f: &FindMemo)
    ensures
        final(b).text@ == old(b).text@ + identity_piece(*f).0,
        arg_views(final(b).args@) == arg_views(old(b).args@) + identity_piece(*f).1,
{
    let ghost t0 = b.text@;
    let ghost a0 = arg_views(b.args@);
    push_id_uid(b, f);
    push_id_list(b, f);
    push_uid_list(b, f);
    assert(b.text@ =~= t0 + identity_piece(*f).0);
    assert(arg_views(b.args@) =~= a0 + identity_piece(*f).1);
}

fn push_status(b: &mut SqlBuilder, f: &FindMemo)
    ensures
        final(b).text@ == old(b).text@ + status_piece(*f).0,
        arg_views(final(b).args@) == arg_views(old(b).args@) + status_piece(*f).1,
{
    let ghost t0 = b.text@;
    let ghost a0 = arg_views(b.args@);
    if let Some(rs) = f.row_status {
        b.push_str(" AND row_status = ?");
        b.bind(SqlValue::Text(rs.as_str().to_owned()));
    }
    if f.visibility_list.len() > 0 {
        b.push_str(" AND visibility IN (");
        b.push_placeholders(f.visibility_list.len());
        b.push_str(")");
        bind_visibilities(b, &f.visibility_list);
    }
    assert(b.text@ =~= t0 + status_piece(*f).0);
    assert(arg_views(b.args@) =~= a0 + status_piece(*f).1);
}

fn push_search(b: &mut SqlBuilder, f: &FindMemo, knn: &Option<Vec<i32>>)
    ensures
        final(b).text@ == old(b).text@ + search_piece(*f, opt_ids(*knn)).0,
        arg_views(final(b).args@) == arg_views(old(b).args@) + search_piece(*f, opt_ids(*knn)).1,
{
    let ghost t0 = b.text@;
    let ghost a0 = arg_views(b.args@);
    if let Some(needle) = &f.content_contains {
        let escaped = escape_like_pattern(needle.as_str());
        b.push_str(" AND content LIKE '%' || ? || '%' ESCAPE '\\'");
        b.bind(SqlValue::Text(escaped));
    }
    if let Some(q) = &f.fts_query {
        b.push_str(" AND id IN (SELECT rowid FROM memo_fts WHERE memo_fts MATCH ?)");
        b.bind(SqlValue::Text(q.clone()));
    }
    if let Some(ids) = knn {
        b.push_str(" AND id IN (");
        b.push_placeholders(ids.len());
        b.push_str(")");
        b.bind_ints(ids);
    }
    assert(b.text@ =~= t0 + search_piece(*f, opt_ids(*knn)).0);
    assert(arg_views(b.args@) =~= a0 + search_piece(*f, opt_ids(*knn)).1);
}

fn push_time(b: &mut SqlBuilder, f: &FindMemo)
    ensures
        final(b).text@ == old(b).text@ + time_piece(*f).0,
        arg_views(final(b).args@) == arg_views(old(b).args@) + time_piece(*f).1,
{
    let ghost t0 = b.text@;
    let ghost a0 = arg_views(b.args@);
    if let Some(t) = f.created_ts_after {
        b.push_str(" AND created_ts >= ?");
        b.bind(SqlValue::Integer(t));
    }
    if let Some(t) = f.created_ts_before {
        b.push_str(" AND created_ts < ?");
        b.bind(SqlValue::Integer(t));
    }
    if let Some(t) = f.updated_ts_after {
        b.push_str(" AND updated_ts >= ?");
        b.bind(SqlValue::Integer(t));
    }
    if let Some(t) = f.updated_ts_before {
        b.push_str(" AND updated_ts < ?");
        b.bind(SqlValue::Integer(t));
    }
    assert(b.text@ =~= t0 + time_piece(*f).0);
    assert(arg_views(b.args@) =~= a0 + time_piece(*f).1);
}

fn push_order(b: &mut SqlBuilder, f: &FindMemo, knn: &Option<Vec<i32>>)
    ensures
        final(b).text@ == old(b).text@ + order_text(*f, opt_ids(*knn)),
        final(b).args@ == old(b).args@,
{
    let ghost t0 = b.text@;
    if f.fts_query.is_some() {
        b.push_str(" ORDER BY (SELECT rank FROM memo_fts WHERE rowid = memo.id)");
    } else if knn.is_some() {
    } else {
        b.push_str(" ORDER BY ");
        if f.order_by_pinned {
            b.push_str("pinned DESC, ");
        }
        if f.order_by_updated_ts {
            if f.order_by_time_asc {
                b.push_str("updated_ts ASC");
            } else {
                b.push_str("updated_ts DESC");
            }
        } else {
            if f.order_by_time_asc {
                b.push_str("created_ts ASC");
            } else {
                b.push_str("created_ts DESC");
            }
        }
    }
    assert(b.text@ =~= t0 + order_text(*f, opt_ids(*knn)));
}

fn push_paging(b: &mut SqlBuilder, f: &FindMemo, knn: &Option<Vec<i32>>)
    ensures
        final(b).text@ == old(b).text@ + paging_piece(*f, opt_ids(*knn)).0,
        arg_views(final(b).args@) == arg_views(old(b).args@) + paging_piece(*f, opt_ids(*knn)).1,
{
    let ghost t0 = b.text@;
    let ghost a0 = arg_views(b.args@);
    if f.tag_search.len() == 0 {
        let limit = if knn.is_some() && f.limit.is_none() {
            let k: u32 = match f.vector_top_k {
                Some(k) => k,
                None => 20,
            };
            Some(k as i32)
        } else {
            f.limit
        };
        if let Some(l) = limit {
            b.push_str(" LIMIT ?");
            b.bind(SqlValue::Integer(l as i64));
        }
        if let Some(o) = f.offset {
            b.push_str(" OFFSET ?");
            b.bind(SqlValue::Integer(o as i64));
        }
    }
    assert(b.text@ =~= t0 + paging_piece(*f, opt_ids(*knn)).0);
    assert(arg_views(b.args@) =~= a0 + paging_piece(*f, opt_ids(*knn)).1);
}

/// The ids of an optional id list.
pub open spec fn opt_ids(knn: Option<Vec<i32>>) -> Option<Seq<i32>> {
    match knn {
        Some(v) => Some(v@),
        None => None,
    }
}

/// The list query for `find`: selected columns (content left out when asked and no tag
/// matching needs it), one condition per filter set, the order, and paging unless tags are
/// matched afterwards. `knn` holds the ids a nearest-neighbour search returned, if one ran.
pub fn build_list_query(find: &FindMemo, knn: &Option<Vec<i32>>) -> (q: SqlQuery)
    ensures
        q.sql@ == list_query(*find, opt_ids(*knn)).0,
        arg_views(q.args@) == list_query(*find, opt_ids(*knn)).1,
{
    let mut b = SqlBuilder::new();
    b.push_str("SELECT id, uid, created_ts, updated_ts, row_status, ");
    if find.exclude_content && find.tag_search.len() == 0 {
        b.push_str("'' AS content, ");
    } else {
        b.push_str("content, ");
    }
    b.push_str("visibility, pinned, payload, location FROM memo WHERE 1=1");
    let ghost t1 = b.text@;
    assert(t1 =~= select_piece(*find).0);
    push_identity(&mut b, find);
    push_status(&mut b, find);
    push_search(&mut b, find, knn);
    push_time(&mut b, find);
    push_order(&mut b, find, knn);
    push_paging(&mut b, find, knn);
    let ghost f = *find;
    let ghost k = opt_ids(*knn);
    assert(b.text@ =~= list_query(f, k).0);
    assert(arg_views(b.args@) =~= list_query(f, k).1);
    b.finish()
}

/// The nearest-neighbour query that runs first when `find` carries an embedding: the ids
/// of the `vector_top_k` (default 20) closest memos, closest first.
pub fn build_knn_query(find: &FindMemo) -> (q: Option<SqlQuery>)
    ensures
        find.vector_embedding is None ==> q is None,
        find.vector_embedding matches Some(e) ==> q matches Some(q) && q.sql@
            == "SELECT rowid FROM memo_vec WHERE embedding MATCH ? ORDER BY distance LIMIT ?"@
            && arg_views(q.args@) == seq![
            SqlArg::Text(e@),
            SqlArg::Integer(
                ((match find.vector_top_k {
                    Some(k) => k,
                    None => 20u32,
                }) as i32) as int,
            ),
        ],
{
    match &find.vector_embedding {
        None => None,
        Some(e) => {
            let k: u32 = match find.vector_top_k {
                Some(k) => k,
                None => 20,
            };
            let mut b = SqlBuilder::new();
            b.push_str(
                "SELECT rowid FROM memo_vec WHERE embedding MATCH ? ORDER BY distance LIMIT ?",
            );
            b.bind(SqlValue::Text(e.clone()));
            b.bind(SqlValue::Integer((k as i32) as i64));
            proof {
                assert(arg_views(b.args@) =~= seq![
                    SqlArg::Text(e@),
                    SqlArg::Integer((k as i32) as int),
                ]);
            }
            Some(b.finish())
        }
    }
}

} // verus!

verus! {

// ---------------------------------------------------------------------------
// Post-processing the rows of the list query
// ---------------------------------------------------------------------------

/// Whether content carries every wanted tag (exact tag match, not a substring).
pub open spec fn carries_all_tags(content: Seq<char>, wanted: Seq<Seq<char>>) -> bool {
    forall|k: int| 0 <= k < wanted.len() ==> tags_of(content).contains(#[trigger] wanted[k])
}

/// The row filter of tag matching.
pub open spec fn tag_match(wanted: Seq<Seq<char>>) -> spec_fn(Memo) -> bool {
    |m: Memo| carries_all_tags(m.content@, wanted)
}

/// Position of the first occurrence of `id` in `order`, or `order.len()` when absent.
pub open spec fn first_pos(order: Seq<i32>, id: i32) -> int
    decreases order.len(),
{
    if order.len() == 0 {
        0
    } else if order.last() == id && !order.drop_last().contains(id) {
        order.len() - 1
    } else if order.drop_last().contains(id) {
        first_pos(order.drop_last(), id)
    } else {
        order.len() as int
    }
}

/// The rows whose id comes first at position `p` of `order` (or is absent, for `p` = length).
pub open spec fn at_pos(order: Seq<i32>, p: int) -> spec_fn(Memo) -> bool {
    |m: Memo| first_pos(order, m.id) == p
}

/// The rows of buckets `0 .. p`, bucket by bucket, each in row order.
pub open spec fn buckets(rows: Seq<Memo>, order: Seq<i32>, p: nat) -> Seq<Memo>
    decreases p,
{
    if p == 0 {
        seq![]
    } else {
        buckets(rows, order, (p - 1) as nat) + rows.filter(at_pos(order, p - 1))
    }
}

/// The rows sorted stably by the position of their id in `order`; rows whose id is not in
/// `order` come last.
pub open spec fn knn_sorted(rows: Seq<Memo>, order: Seq<i32>) -> Seq<Memo> {
    buckets(rows, order, order.len() + 1)
}

/// One page of the rows: from `offset` (0 when absent, negatives as 0), at most `limit`
/// rows when `limit` is given and not negative.
pub open spec fn page_rows(rows: Seq<Memo>, offset: Option<i32>, limit: Option<i32>) -> Seq<Memo> {
    let o: int = match offset {
        Some(x) => x as int,
        None => 0,
    };
    let start: int = if o < 0 {
        0
    } else {
        o
    };
    if start >= rows.len() {
        seq![]
    } else {
        let t = rows.skip(start);
        match limit {
            Some(l) => if 0 <= l < t.len() {
                t.take(l as int)
            } else {
                t
            },
            None => t,
        }
    }
}

/// The rows `list` returns before contents are cleared: tag matching, then the order of a
/// nearest-neighbour search, then paging when tags were matched.
pub open spec fn listed_rows(rows: Seq<Memo>, f: FindMemo, knn: Option<Seq<i32>>) -> Seq<Memo> {
    let matched = if f.tag_search@.len() == 0 {
        rows
    } else {
        rows.filter(tag_match(string_views(f.tag_search@)))
    };
    let ordered = match knn {
        Some(order) => knn_sorted(matched, order),
        None => matched,
    };
    if f.tag_search@.len() == 0 {
        ordered
    } else {
        page_rows(ordered, f.offset, f.limit)
    }
}

/// `a` and `b` agree on every field but the content.
pub open spec fn same_but_content(a: Memo, b: Memo) -> bool {
    &&& a.id == b.id
    &&& a.uid == b.uid
    &&& a.created_ts == b.created_ts
    &&& a.updated_ts == b.updated_ts
    &&& a.row_status == b.row_status
    &&& a.visibility == b.visibility
    &&& a.pinned == b.pinned
    &&& a.payload == b.payload
    &&& a.location == b.location
}

/// A copy of a memo.
pub fn clone_memo(m: &Memo) -> (r: Memo)
    ensures
        r == *m,
{
    Memo {
        id: m.id,
        uid: m.uid.clone(),
        created_ts: m.created_ts,
        updated_ts: m.updated_ts,
        row_status: m.row_status,
        content: m.content.clone(),
        visibility: m.visibility,
        pinned: m.pinned,
        payload: m.payload.clone(),
        location: match &m.location {
            Some(l) => Some(l.clone()),
            None => None,
        },
    }
}

/// Whether the content carries every one of the wanted tags.
pub fn has_all_tags(content: &str, wanted: &Vec<String>) -> (r: bool)
    ensures
        r == carries_all_tags(content@, string_views(wanted@)),
{
    let tags = extract_tags(content);
    let mut k: usize = 0;
    while k < wanted.len()
        invariant
            k <= wanted.len(),
            string_views(tags@) == tags_of(content@),
            forall|q: int|
                0 <= q < k ==> tags_of(content@).contains(#[trigger] string_views(wanted@)[q]),
        decreases wanted.len() - k,
    {
        let mut found = false;
        let mut j: usize = 0;
        while j < tags.len()
            invariant
                j <= tags.len(),
                k < wanted.len(),
                found == exists|q: int| 0 <= q < j && tags@[q]@ == wanted@[k as int]@,
            decreases tags.len() - j,
        {
            if tags[j] == wanted[k] {
                found = true;
            }
            j = j + 1;
        }
        if !found {
            proof {
                if tags_of(content@).contains(string_views(wanted@)[k as int]) {
                    let q = choose|q: int|
                        0 <= q < tags_of(content@).len() && tags_of(content@)[q] == string_views(
                            wanted@,
                        )[k as int];
                    assert(string_views(tags@)[q] == tags@[q]@);
                }
            }
            return false;
        }
        proof {
            let q = choose|q: int| 0 <= q < tags.len() && tags@[q]@ == wanted@[k as int]@;
            assert(string_views(tags@)[q] == tags@[q]@);
            assert(tags_of(content@).contains(string_views(wanted@)[k as int]));
        }
        k = k + 1;
    }
    true
}

/// The rows that carry every wanted tag, in row order.
pub fn filter_by_tags(rows: Vec<Memo>, wanted: &Vec<String>) -> (r: Vec<Memo>)
    ensures
        r@ == rows@.filter(tag_match(string_views(wanted@))),
{
    let ghost pred = tag_match(string_views(wanted@));
    let mut out: Vec<Memo> = Vec::new();
    let mut k: usize = 0;
    while k < rows.len()
        invariant
            k <= rows.len(),
            pred == tag_match(string_views(wanted@)),
            out@ == rows@.take(k as int).filter(pred),
        decreases rows.len() - k,
    {
        proof {
            reveal_with_fuel(Seq::filter, 1);
            assert(rows@.take(k + 1).drop_last() =~= rows@.take(k as int));
        }
        if has_all_tags(rows[k].content.as_str(), wanted) {
            out.push(clone_memo(&rows[k]));
        }
        k = k + 1;
    }
    assert(rows@.take(rows.len() as int) =~= rows@);
    out
}

/// Position of the first occurrence of `id` in `order`, or the length when absent.
pub fn first_position(order: &Vec<i32>, id: i32) -> (r: usize)
    ensures
        r as int == first_pos(order@, id),
{
    let mut k: usize = 0;
    while k < order.len()
        invariant
            k <= order.len(),
            forall|q: int| 0 <= q < k ==> order@[q] != id,
        decreases order.len() - k,
    {
        if order[k] == id {
            proof {
                lemma_first_pos(order@, id, k as int);
            }
            return k;
        }
        k = k + 1;
    }
    proof {
        lemma_first_pos_absent(order@, id);
    }
    order.len()
}

proof fn lemma_first_pos(order: Seq<i32>, id: i32, k: int)
    requires
        0 <= k < order.len(),
        order[k] == id,
        forall|q: int| 0 <= q < k ==> order[q] != id,
    ensures
        first_pos(order, id) == k,
    decreases order.len(),
{
    if k == order.len() - 1 {
        assert(!order.drop_last().contains(id)) by {
            if order.drop_last().contains(id) {
                let q = choose|q: int| 0 <= q < order.drop_last().len() && order.drop_last()[q]
                    == id;
                assert(order[q] == id);
            }
        }
    } else {
        assert(order.drop_last()[k] == id);
        assert(order.drop_last().contains(id));
        lemma_first_pos(order.drop_last(), id, k);
    }
}

proof fn lemma_first_pos_absent(order: Seq<i32>, id: i32)
    requires
        forall|q: int| 0 <= q < order.len() ==> order[q] != id,
    ensures
        first_pos(order, id) == order.len(),
{
    if order.len() > 0 {
        assert(!order.drop_last().contains(id)) by {
            if order.drop_last().contains(id) {
                let q = choose|q: int| 0 <= q < order.drop_last().len() && order.drop_last()[q]
                    == id;
                assert(order[q] == id);
            }
        }
    }
}

/// The rows sorted stably by the position of their id in `order`, absent ids last.
pub fn sort_by_order(rows: &Vec<Memo>, order: &Vec<i32>) -> (r: Vec<Memo>)
    requires
        order.len() < usize::MAX,
    ensures
        r@ == knn_sorted(rows@, order@),
{
    let mut pos: Vec<usize> = Vec::new();
    let mut k: usize = 0;
    while k < rows.len()
        invariant
            k <= rows.len(),
            pos.len() == k,
            forall|q: int| 0 <= q < k ==> pos@[q] as int == first_pos(order@, #[trigger] rows@[q].id),
        decreases rows.len() - k,
    {
        pos.push(first_position(order, rows[k].id));
        k = k + 1;
    }
    let mut out: Vec<Memo> = Vec::new();
    let mut p: usize = 0;
    while p <= order.len()
        invariant
            p <= order.len() + 1,
            order.len() < usize::MAX,
            pos.len() == rows.len(),
            forall|q: int| 0 <= q < rows.len() ==> pos@[q] as int == first_pos(order@, #[trigger] rows@[q].id),
            out@ == buckets(rows@, order@, p as nat),
        decreases order.len() + 1 - p,
    {
        let ghost before = out@;
        let ghost pred = at_pos(order@, p as int);
        let mut j: usize = 0;
        while j < rows.len()
            invariant
                j <= rows.len(),
                pos.len() == rows.len(),
                pred == at_pos(order@, p as int),
                forall|q: int| 0 <= q < rows.len() ==> pos@[q] as int == first_pos(order@, #[trigger] rows@[q].id),
                out@ == before + rows@.take(j as int).filter(pred),
            decreases rows.len() - j,
        {
            proof {
                reveal_with_fuel(Seq::filter, 1);
                assert(rows@.take(j + 1).drop_last() =~= rows@.take(j as int));
            }
            if pos[j] == p {
                out.push(clone_memo(&rows[j]));
            }
            j = j + 1;
        }
        assert(rows@.take(rows.len() as int) =~= rows@);
        p = p + 1;
    }
    out
}

/// One page of the rows: from `offset` (absent or negative: 0), at most `limit` rows when
/// `limit` is given and not negative.
pub fn page(rows: Vec<Memo>, offset: Option<i32>, limit: Option<i32>) -> (r: Vec<Memo>)
    ensures
        r@ == page_rows(rows@, offset, limit),
{
    let o: i32 = match offset {
        Some(x) => x,
        None => 0,
    };
    let start: usize = if o < 0 {
        0
    } else {
        o as usize
    };
    if start >= rows.len() {
        return Vec::new();
    }
    let mut end = rows.len();
    if let Some(l) = limit {
        if l >= 0 && (l as usize) < rows.len() - start {
            end = start + l as usize;
        }
    }
    let mut out: Vec<Memo> = Vec::new();
    let mut k = start;
    while k < end
        invariant
            start <= k <= end <= rows.len(),
            out@ == rows@.subrange(start as int, k as int),
        decreases end - k,
    {
        out.push(clone_memo(&rows[k]));
        k = k + 1;
        assert(rows@.subrange(start as int, k as int) =~= rows@.subrange(start as int, k - 1)
            + seq![rows@[k - 1]]);
    }
    assert(out@ =~= page_rows(rows@, offset, limit));
    out
}

/// Every row of the first `p` buckets is one of the rows.
proof fn lemma_buckets_within(rows: Seq<Memo>, order: Seq<i32>, p: nat)
    ensures
        forall|k: int|
            0 <= k < buckets(rows, order, p).len() ==> rows.contains(
                #[trigger] buckets(rows, order, p)[k],
            ),
    decreases p,
{
    if p > 0 {
        lemma_buckets_within(rows, order, (p - 1) as nat);
        let prev = buckets(rows, order, (p - 1) as nat);
        let f = rows.filter(at_pos(order, p - 1));
        assert forall|k: int| 0 <= k < buckets(rows, order, p).len() implies rows.contains(
            #[trigger] buckets(rows, order, p)[k],
        ) by {
            if k < prev.len() {
                assert(buckets(rows, order, p)[k] == prev[k]);
            } else {
                let j = k - prev.len();
                assert(buckets(rows, order, p)[k] == f[j]);
                assert(f.contains(f[j]));
                rows.lemma_filter_contains_rev(at_pos(order, p - 1), f[j]);
            }
        }
    }
}

/// Law: every memo a listing returns carries each tag the filter asks for (an exact tag,
/// not a substring), whatever order a nearest-neighbour search gave and whatever page was
/// asked.
pub proof fn law_listed_rows_carry_tags(rows: Seq<Memo>, f: FindMemo, knn: Option<Seq<i32>>)
    ensures
        forall|k: int|
            0 <= k < listed_rows(rows, f, knn).len() ==> carries_all_tags(
                (#[trigger] listed_rows(rows, f, knn)[k]).content@,
                string_views(f.tag_search@),
            ),
{
    let w = string_views(f.tag_search@);
    if f.tag_search@.len() == 0 {
        assert forall|k: int| 0 <= k < listed_rows(rows, f, knn).len() implies carries_all_tags(
            (#[trigger] listed_rows(rows, f, knn)[k]).content@,
            w,
        ) by {}
    } else {
        let matched = rows.filter(tag_match(w));
        let ordered = match knn {
            Some(order) => knn_sorted(matched, order),
            None => matched,
        };
        assert forall|x: Memo| #[trigger] ordered.contains(x) implies carries_all_tags(x.content@, w) by {
            if knn is Some {
                let order = knn->0;
                lemma_buckets_within(matched, order, order.len() + 1);
                let k = choose|k: int| 0 <= k < ordered.len() && ordered[k] == x;
                assert(matched.contains(ordered[k]));
            }
            let i = choose|i: int| 0 <= i < matched.len() && matched[i] == x;
            rows.lemma_filter_pred(tag_match(w), i);
        }
        let paged = page_rows(ordered, f.offset, f.limit);
        assert forall|k: int| 0 <= k < listed_rows(rows, f, knn).len() implies carries_all_tags(
            (#[trigger] listed_rows(rows, f, knn)[k]).content@,
            w,
        ) by {
            assert(listed_rows(rows, f, knn) == paged);
            let o: int = match f.offset {
                Some(x) => x as int,
                None => 0,
            };
            let start: int = if o < 0 {
                0
            } else {
                o
            };
            assert(paged[k] == ordered[start + k]);
            assert(ordered.contains(ordered[start + k]));
        }
    }
}

/// Law: the tag filter keeps a memo exactly when every requested tag is among the tags
/// written in its content (all of them, not any one), and keeps the rows in order among
/// those given: a row is in the filtered list exactly when it is among the rows and carries
/// every requested tag.
pub proof fn law_tag_filter_needs_every_tag(rows: Seq<Memo>, wanted: Seq<Seq<char>>)
    ensures
        forall|m: Memo|
            #[trigger] (tag_match(wanted))(m) <==> (forall|j: int|
                0 <= j < wanted.len() ==> tags_of(m.content@).contains(#[trigger] wanted[j])),
        forall|m: Memo|
            #[trigger] rows.filter(tag_match(wanted)).contains(m) <==> (rows.contains(m) && (forall|
                j: int,
            | 0 <= j < wanted.len() ==> tags_of(m.content@).contains(#[trigger] wanted[j]))),
{
    assert forall|m: Memo| #[trigger] rows.filter(tag_match(wanted)).contains(m) <==> (rows.contains(
        m,
    ) && (forall|j: int|
        0 <= j < wanted.len() ==> tags_of(m.content@).contains(#[trigger] wanted[j]))) by {
        if rows.filter(tag_match(wanted)).contains(m) {
            rows.lemma_filter_contains_rev(tag_match(wanted), m);
            let q = choose|q: int|
                0 <= q < rows.filter(tag_match(wanted)).len() && rows.filter(tag_match(wanted))[q]
                    == m;
            rows.lemma_filter_pred(tag_match(wanted), q);
        }
        if rows.contains(m) && (forall|j: int|
            0 <= j < wanted.len() ==> tags_of(m.content@).contains(#[trigger] wanted[j])) {
            let q = choose|q: int| 0 <= q < rows.len() && rows[q] == m;
            assert((tag_match(wanted))(rows[q]));
            rows.lemma_filter_contains(tag_match(wanted), q);
        }
    }
}

/// Law: every memo a listing returns carries every tag the filter asks for, each found among
/// the tags written in its content (an exact tag, not a substring).
pub proof fn law_listed_rows_have_every_tag(rows: Seq<Memo>, f: FindMemo, knn: Option<Seq<i32>>)
    ensures
        forall|k: int, j: int|
            0 <= k < listed_rows(rows, f, knn).len() && 0 <= j < f.tag_search@.len() ==> tags_of(
                (#[trigger] listed_rows(rows, f, knn)[k]).content@,
            ).contains(#[trigger] f.tag_search@[j]@),
{
    law_listed_rows_carry_tags(rows, f, knn);
    assert forall|k: int, j: int|
        0 <= k < listed_rows(rows, f, knn).len() && 0 <= j < f.tag_search@.len() implies tags_of(
            (#[trigger] listed_rows(rows, f, knn)[k]).content@,
        ).contains(#[trigger] f.tag_search@[j]@) by {
        assert(carries_all_tags(listed_rows(rows, f, knn)[k].content@, string_views(f.tag_search@)));
        assert(string_views(f.tag_search@)[j] == f.tag_search@[j]@);
    }
}

/// Law: a page holds at most `limit` rows when a limit that is not negative is given, and
/// never more rows than there are.
pub proof fn law_page_bounded(rows: Seq<Memo>, offset: Option<i32>, limit: Option<i32>)
    ensures
        page_rows(rows, offset, limit).len() <= rows.len(),
        limit matches Some(l) ==> (l >= 0 ==> page_rows(rows, offset, limit).len() <= l),
{
}

/// The same filter without paging.
pub open spec fn unpaged(f: FindMemo) -> FindMemo {
    FindMemo { limit: None, offset: None, ..f }
}

/// Law: when tags are searched, the query does not depend on the page asked for, and a page
/// of the listing is that page of the whole listing: paging is applied after the exact tag
/// match (and after the order of a nearest-neighbour search), so no page is shortened by
/// rows that lack a tag.
pub proof fn law_tag_paging_after_filter(rows: Seq<Memo>, f: FindMemo, knn: Option<Seq<i32>>)
    requires
        f.tag_search@.len() > 0,
    ensures
        list_query(f, knn) == list_query(unpaged(f), knn),
        listed_rows(rows, f, knn) == page_rows(listed_rows(rows, unpaged(f), knn), f.offset, f.limit),
{
    let g = unpaged(f);
    assert(select_piece(f) == select_piece(g));
    assert(identity_piece(f) == identity_piece(g));
    assert(status_piece(f) == status_piece(g));
    assert(search_piece(f, knn) == search_piece(g, knn));
    assert(time_piece(f) == time_piece(g));
    assert(order_text(f, knn) == order_text(g, knn));
    assert(paging_piece(f, knn) == paging_piece(g, knn));
    let matched = rows.filter(tag_match(string_views(f.tag_search@)));
    let ordered = match knn {
        Some(order) => knn_sorted(matched, order),
        None => matched,
    };
    if ordered.len() > 0 {
        assert(ordered.skip(0) =~= ordered);
    }
    assert(page_rows(ordered, None, None) =~= ordered);
}

/// What `list` returns for the rows its query gave: rows that lack a wanted tag dropped,
/// nearest-neighbour results put in distance order, paging applied when tags were matched,
/// and contents cleared when they were only read for tag matching.
pub fn finish_list(rows: Vec<Memo>, find: &FindMemo, knn: &Option<Vec<i32>>) -> (r: Vec<Memo>)
    requires
        knn matches Some(order) ==> order.len() < usize::MAX,
    ensures
        r@.len() == listed_rows(rows@, *find, opt_ids(*knn)).len(),
        forall|k: int|
            0 <= k < r@.len() ==> if find.tag_search@.len() > 0 && find.exclude_content {
                same_but_content(#[trigger] r@[k], listed_rows(rows@, *find, opt_ids(*knn))[k])
                    && r@[k].content@.len() == 0
            } else {
                r@[k] == listed_rows(rows@, *find, opt_ids(*knn))[k]
            },
{
    let matched = if find.tag_search.len() == 0 {
        rows
    } else {
        filter_by_tags(rows, &find.tag_search)
    };
    let ordered = match knn {
        Some(order) => sort_by_order(&matched, order),
        None => matched,
    };
    let paged = if find.tag_search.len() == 0 {
        ordered
    } else {
        page(ordered, find.offset, find.limit)
    };
    if find.tag_search.len() > 0 && find.exclude_content {
        let mut out: Vec<Memo> = Vec::new();
        let mut k: usize = 0;
        while k < paged.len()
            invariant
                k <= paged.len(),
                out@.len() == k,
                forall|q: int|
                    0 <= q < k ==> same_but_content(#[trigger] out@[q], paged@[q])
                        && out@[q].content@.len() == 0,
            decreases paged.len() - k,
        {
            let mut m = clone_memo(&paged[k]);
            m.content = String::new();
            out.push(m);
            k = k + 1;
        }
        out
    } else {
        paged
    }
}

} // verus!

verus! {

// ---------------------------------------------------------------------------
// Create and update
// ---------------------------------------------------------------------------

/// The insert statement for a new memo; an ill-formed uid is refused.
pub fn build_create_query(c: &CreateMemo) -> (r: Result<SqlQuery, CoreError>)
    ensures
        !valid_uid(c.uid@) <==> r is Err,
        r matches Err(e) ==> e == CoreError::InvalidUid,
        r matches Ok(q) ==> q.sql@
            == "INSERT INTO memo (uid, content, visibility, pinned, payload, location) VALUES (?1, ?2, ?3, ?4, ?5, ?6)"@
            && arg_views(q.args@) == seq![
            SqlArg::Text(c.uid@),
            SqlArg::Text(c.content@),
            SqlArg::Text(visibility_name(c.visibility)),
            SqlArg::Integer(if c.pinned { 1 } else { 0 }),
            SqlArg::Text(c.payload@),
            match c.location {
                Some(l) => SqlArg::Text(l@),
                None => SqlArg::Null,
            },
        ],
{
    if !validate_uid(c.uid.as_str()) {
        return Err(CoreError::InvalidUid);
    }
    let mut b = SqlBuilder::new();
    b.push_str(
        "INSERT INTO memo (uid, content, visibility, pinned, payload, location) VALUES (?1, ?2, ?3, ?4, ?5, ?6)",
    );
    b.bind(SqlValue::Text(c.uid.clone()));
    b.bind(SqlValue::Text(c.content.clone()));
    b.bind(SqlValue::Text(c.visibility.as_str().to_owned()));
    b.bind(SqlValue::Integer(if c.pinned { 1 } else { 0 }));
    b.bind(SqlValue::Text(c.payload.clone()));
    match &c.location {
        Some(l) => b.bind(SqlValue::Text(l.clone())),
        None => b.bind(SqlValue::Null),
    }
    assert(arg_views(b.args@) =~= seq![
        SqlArg::Text(c.uid@),
        SqlArg::Text(c.content@),
        SqlArg::Text(visibility_name(c.visibility)),
        SqlArg::Integer(if c.pinned { 1 } else { 0 }),
        SqlArg::Text(c.payload@),
        match c.location {
            Some(l) => SqlArg::Text(l@),
            None => SqlArg::Null,
        },
    ]);
    Ok(b.finish())
}

/// The error of a failed insert: a uniqueness violation means the uid is taken; any other
/// failure is a database error with its message.
pub fn insert_error(constraint_violation: bool, uid: String, message: String) -> (e: CoreError)
    ensures
        constraint_violation ==> e == CoreError::UidConflict(uid),
        !constraint_violation ==> e == CoreError::Db(message),
{
    if constraint_violation {
        CoreError::UidConflict(uid)
    } else {
        CoreError::Db(message)
    }
}

/// The assignments of an update for the identity, status and content fields.
pub open spec fn update_head(u: UpdateMemo) -> (Seq<char>, Seq<SqlArg>) {
    let p1 = match u.uid {
        Some(x) => ("uid = ?, "@, seq![SqlArg::Text(x@)]),
        None => (seq![], seq![]),
    };
    let p2 = match u.row_status {
        Some(x) => ("row_status = ?, "@, seq![SqlArg::Text(row_status_name(x))]),
        None => (seq![], seq![]),
    };
    let p3 = match u.content {
        Some(x) => ("content = ?, "@, seq![SqlArg::Text(x@)]),
        None => (seq![], seq![]),
    };
    (p1.0 + p2.0 + p3.0, p1.1 + p2.1 + p3.1)
}

/// The assignments of an update for visibility, pinning, payload and location.
pub open spec fn update_tail(u: UpdateMemo) -> (Seq<char>, Seq<SqlArg>) {
    let p4 = match u.visibility {
        Some(x) => ("visibility = ?, "@, seq![SqlArg::Text(visibility_name(x))]),
        None => (seq![], seq![]),
    };
    let p5 = match u.pinned {
        Some(x) => ("pinned = ?, "@, seq![SqlArg::Integer(if x { 1 } else { 0 })]),
        None => (seq![], seq![]),
    };
    let p6 = match u.payload {
        Some(x) => ("payload = ?, "@, seq![SqlArg::Text(x@)]),
        None => (seq![], seq![]),
    };
    let p7 = match u.location {
        Some(Some(x)) => ("location = ?, "@, seq![SqlArg::Text(x@)]),
        Some(None) => ("location = NULL, "@, seq![]),
        None => (seq![], seq![]),
    };
    (p4.0 + p5.0 + p6.0 + p7.0, p4.1 + p5.1 + p6.1 + p7.1)
}

/// The update statement: one assignment per field set, the update time `now`, then the id.
pub open spec fn update_query(u: UpdateMemo, now: i64) -> (Seq<char>, Seq<SqlArg>) {
    (
        "UPDATE memo SET "@ + update_head(u).0 + update_tail(u).0 + "updated_ts = ? WHERE id = ?"@,
        update_head(u).1 + update_tail(u).1 + seq![
            SqlArg::Integer(now as int),
            SqlArg::Integer(u.id as int),
        ],
    )
}

fn push_update_head(b: &mut SqlBuilder, u: &UpdateMemo)
    ensures
        final(b).text@ == old(b).text@ + update_head(*u).0,
        arg_views(final(b).args@) == arg_views(old(b).args@) + update_head(*u).1,
{
    let ghost t0 = b.text@;
    let ghost a0 = arg_views(b.args@);
    if let Some(x) = &u.uid {
        b.push_bound("uid = ?, ", SqlValue::Text(x.clone()));
    }
    if let Some(x) = u.row_status {
        b.push_bound("row_status = ?, ", SqlValue::Text(x.as_str().to_owned()));
    }
    if let Some(x) = &u.content {
        b.push_bound("content = ?, ", SqlValue::Text(x.clone()));
    }
    assert(b.text@ =~= t0 + update_head(*u).0);
    assert(arg_views(b.args@) =~= a0 + update_head(*u).1);
}

fn push_update_tail(b: &mut SqlBuilder, u: &UpdateMemo)
    ensures
        final(b).text@ == old(b).text@ + update_tail(*u).0,
        arg_views(final(b).args@) == arg_views(old(b).args@) + update_tail(*u).1,
{
    let ghost t0 = b.text@;
    let ghost a0 = arg_views(b.args@);
    if let Some(x) = u.visibility {
        b.push_bound("visibility = ?, ", SqlValue::Text(x.as_str().to_owned()));
    }
    if let Some(x) = u.pinned {
        b.push_bound("pinned = ?, ", SqlValue::Integer(if x { 1 } else { 0 }));
    }
    let ghost t1 = b.text@;
    let ghost a1 = arg_views(b.args@);
    if let Some(x) = &u.payload {
        b.push_bound("payload = ?, ", SqlValue::Text(x.clone()));
    }
    match &u.location {
        Some(Some(x)) => b.push_bound("location = ?, ", SqlValue::Text(x.clone())),
        Some(None) => b.push_str("location = NULL, "),
        None => {},
    }
    assert(b.text@ =~= t0 + update_tail(*u).0);
    assert(arg_views(b.args@) =~= a0 + update_tail(*u).1);
}

/// The statement that applies `u` at time `now`; a new uid that is ill-formed is refused.
pub fn build_update_query(u: &UpdateMemo, now: i64) -> (r: Result<SqlQuery, CoreError>)
    ensures
        (u.uid matches Some(x) && !valid_uid(x@)) <==> r is Err,
        r matches Err(e) ==> e == CoreError::InvalidUid,
        r matches Ok(q) ==> q.sql@ == update_query(*u, now).0 && arg_views(q.args@)
            == update_query(*u, now).1,
{
    if let Some(x) = &u.uid {
        if !validate_uid(x.as_str()) {
            return Err(CoreError::InvalidUid);
        }
    }
    let mut b = SqlBuilder::new();
    b.push_str("UPDATE memo SET ");
    push_update_head(&mut b, u);
    push_update_tail(&mut b, u);
    b.push_bound("updated_ts = ? WHERE id = ?", SqlValue::Integer(now));
    b.bind(SqlValue::Integer(u.id as i64));
    assert(b.text@ =~= update_query(*u, now).0);
    assert(arg_views(b.args@) =~= update_query(*u, now).1);
    Ok(b.finish())
}

/// The not-found error for a memo id: `memo id={id}`.
pub fn not_found(id: i32) -> (e: CoreError)
    ensures
        e matches CoreError::NotFound(m) && m@ == "memo id="@ + signed_decimal(id as int),
{
    let mut v: Vec<char> = Vec::new();
    let prefix = chars_of("memo id=");
    extend_chars(&mut v, prefix.as_slice());
    push_signed_decimal(&mut v, id as i64);
    CoreError::NotFound(string_from_chars(v.as_slice()))
}

/// The statement that reads a memo's uid.
pub fn uid_query(id: i32) -> (q: SqlQuery)
    ensures
        q.sql@ == "SELECT uid FROM memo WHERE id = ?"@,
        arg_views(q.args@) == seq![SqlArg::Integer(id as int)],
{
    let q = crate::sql::statement("SELECT uid FROM memo WHERE id = ?", vec![SqlValue::Integer(id as i64)]);
    assert(arg_views(q.args@) =~= seq![SqlArg::Integer(id as int)]);
    q
}

/// The statements that delete a memo, run in one transaction in this order. Failures of
/// `mark_cards` and `vector` are ignored; the rows `memo` removes tell whether it existed.
pub struct MemoDeletion {
    /// Marks the review cards of the memo (when its uid was found).
    pub mark_cards: Option<SqlQuery>,
    /// Removes the links touching the memo.
    pub relations: SqlQuery,
    /// Detaches the memo's attachments, which are kept.
    pub attachments: SqlQuery,
    /// Removes the memo's vector.
    pub vector: SqlQuery,
    /// Removes the memo.
    pub memo: SqlQuery,
}

/// The statements that delete memo `id`, whose uid is `uid` when it was found.
pub fn deletion(id: i32, uid: Option<String>) -> (d: MemoDeletion)
    ensures
        match uid {
            Some(u) => d.mark_cards matches Some(q) && q.sql@
                == "UPDATE review_card SET memo_deleted = 1 WHERE memo_uid = ?1"@ && arg_views(
                q.args@,
            ) == seq![SqlArg::Text(u@)],
            None => d.mark_cards is None,
        },
        d.relations.sql@ == "DELETE FROM memo_relation WHERE memo_id = ?1 OR related_memo_id = ?1"@,
        arg_views(d.relations.args@) == seq![SqlArg::Integer(id as int)],
        d.attachments.sql@ == "UPDATE attachment SET memo_id = NULL WHERE memo_id = ?"@,
        arg_views(d.attachments.args@) == seq![SqlArg::Integer(id as int)],
        d.vector.sql@ == "DELETE FROM memo_vec WHERE rowid = ?"@,
        arg_views(d.vector.args@) == seq![SqlArg::Integer(id as int)],
        d.memo.sql@ == "DELETE FROM memo WHERE id = ?"@,
        arg_views(d.memo.args@) == seq![SqlArg::Integer(id as int)],
{
    let mark_cards = match uid {
        Some(u) => {
            let ghost uv = u@;
            let q = crate::sql::statement(
                "UPDATE review_card SET memo_deleted = 1 WHERE memo_uid = ?1",
                vec![SqlValue::Text(u)],
            );
            assert(arg_views(q.args@) =~= seq![SqlArg::Text(uv)]);
            Some(q)
        },
        None => None,
    };
    let relations = crate::sql::statement(
        "DELETE FROM memo_relation WHERE memo_id = ?1 OR related_memo_id = ?1",
        vec![SqlValue::Integer(id as i64)],
    );
    let attachments = crate::sql::statement(
        "UPDATE attachment SET memo_id = NULL WHERE memo_id = ?",
        vec![SqlValue::Integer(id as i64)],
    );
    let vector = crate::sql::statement("DELETE FROM memo_vec WHERE rowid = ?", vec![SqlValue::Integer(id as i64)]);
    let memo = crate::sql::statement("DELETE FROM memo WHERE id = ?", vec![SqlValue::Integer(id as i64)]);
    assert(arg_views(relations.args@) =~= seq![SqlArg::Integer(id as int)]);
    assert(arg_views(attachments.args@) =~= seq![SqlArg::Integer(id as int)]);
    assert(arg_views(vector.args@) =~= seq![SqlArg::Integer(id as int)]);
    assert(arg_views(memo.args@) =~= seq![SqlArg::Integer(id as int)]);
    MemoDeletion { mark_cards, relations, attachments, vector, memo }
}

/// A deletion that removed no memo row means the memo does not exist.
pub fn deletion_outcome(affected: usize, id: i32) -> (r: Result<(), CoreError>)
    ensures
        affected > 0 <==> r is Ok,
        r matches Err(e) ==> (e matches CoreError::NotFound(m) && m@ == "memo id="@
            + signed_decimal(id as int)),
{
    if affected == 0 {
        Err(not_found(id))
    } else {
        Ok(())
    }
}

} // verus!
