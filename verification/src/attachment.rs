//! Attachments: the record types and the statements that store and query them.
use crate::error::CoreError;
use crate::sql::{
    arg_views, int_args, opt_int_arg, opt_int_value, placeholders, SqlArg, SqlBuilder, SqlQuery,
    SqlValue,
};
use crate::text::{push_signed_decimal, signed_decimal, str_equals, string_from_chars};
use crate::types::{valid_uid, validate_uid};
use vstd::prelude::*;

verus! {

/// Attachment kept as a database blob.
pub const STORAGE_TYPE_DATABASE: &'static str = "DATABASE";

/// Attachment kept as a local file.
pub const STORAGE_TYPE_LOCAL: &'static str = "LOCAL";

/// An attachment as stored. `payload` holds its JSON text; `blob` is only read when asked.
#[derive(Debug, Clone)]
pub struct Attachment {
    pub id: i32,
    pub uid: String,
    pub created_ts: i64,
    pub updated_ts: i64,
    pub filename: String,
    pub blob: Option<Vec<u8>>,
    pub mime_type: String,
    pub size: i64,
    pub memo_id: Option<i32>,
    pub storage_type: String,
    pub reference: String,
    pub payload: String,
}

/// An attachment to create.
#[derive(Debug, Clone)]
pub struct CreateAttachment {
    pub uid: String,
    pub filename: String,
    /// The bytes (DATABASE); may be empty for LOCAL.
    pub blob: Vec<u8>,
    pub mime_type: String,
    pub memo_id: Option<i32>,
    /// `"DATABASE"` or `"LOCAL"`.
    pub storage_type: String,
    /// Relative file path (LOCAL); empty for DATABASE.
    pub reference: String,
    /// Size in bytes; required for LOCAL, taken from the blob for DATABASE when absent.
    pub size: Option<i64>,
}

/// Changes to one attachment; for `memo_id`, `Some(None)` detaches it.
#[derive(Debug, Clone)]
pub struct UpdateAttachment {
    pub id: i32,
    pub filename: Option<String>,
    pub memo_id: Option<Option<i32>>,
    /// New payload, as JSON text.
    pub payload: Option<String>,
}

/// Attachment query filter.
#[derive(Debug, Clone)]
pub struct FindAttachment {
    pub id: Option<i32>,
    pub uid: Option<String>,
    pub memo_id: Option<i32>,
    pub memo_id_list: Vec<i32>,
    /// Only attachments of no memo.
    pub memo_id_is_null: bool,
    pub limit: Option<i32>,
    pub offset: Option<i32>,
    pub get_blob: bool,
}

/// Size and blob argument stored for a new attachment: LOCAL stores no blob and the given
/// size (0 when absent); DATABASE stores the blob and the given size or the blob's length.
pub open spec fn stored_size_and_blob(c: CreateAttachment) -> (int, SqlArg) {
    if c.storage_type@ == "LOCAL"@ {
        (
            match c.size {
                Some(s) => s as int,
                None => 0,
            },
            SqlArg::Null,
        )
    } else {
        (
            match c.size {
                Some(s) => s as int,
                None => (c.blob@.len() as i64) as int,
            },
            SqlArg::Blob(c.blob@),
        )
    }
}

/// The statement that inserts an attachment; an ill-formed uid is refused.
pub fn build_create_query(c: &CreateAttachment) -> (r: Result<SqlQuery, CoreError>)
    ensures
        !valid_uid(c.uid@) <==> r is Err,
        r matches Err(e) ==> e == CoreError::InvalidUid,
        r matches Ok(q) ==> q.sql@
            == "INSERT INTO attachment (uid, filename, blob, type, size, memo_id, storage_type, reference) VALUES (?1, ?2, ?3, ?4, ?5, ?6, ?7, ?8)"@
            && arg_views(q.args@) == seq![
            SqlArg::Text(c.uid@),
            SqlArg::Text(c.filename@),
            stored_size_and_blob(*c).1,
            SqlArg::Text(c.mime_type@),
            SqlArg::Integer(stored_size_and_blob(*c).0),
            opt_int_arg(c.memo_id),
            SqlArg::Text(c.storage_type@),
            SqlArg::Text(c.reference@),
        ],
{
    if !validate_uid(c.uid.as_str()) {
        return Err(CoreError::InvalidUid);
    }
    let local = str_equals(c.storage_type.as_str(), STORAGE_TYPE_LOCAL);
    let (size, blob) = if local {
        (
            match c.size {
                Some(s) => s,
                None => 0,
            },
            SqlValue::Null,
        )
    } else {
        (
            match c.size {
                Some(s) => s,
                None => c.blob.len() as i64,
            },
            SqlValue::Blob(c.blob.clone()),
        )
    };
    let mut b = SqlBuilder::new();
    b.push_str(
        "INSERT INTO attachment (uid, filename, blob, type, size, memo_id, storage_type, reference) VALUES (?1, ?2, ?3, ?4, ?5, ?6, ?7, ?8)",
    );
    b.bind(SqlValue::Text(c.uid.clone()));
    b.bind(SqlValue::Text(c.filename.clone()));
    b.bind(blob);
    b.bind(SqlValue::Text(c.mime_type.clone()));
    b.bind(SqlValue::Integer(size));
    b.bind(opt_int_value(c.memo_id));
    b.bind(SqlValue::Text(c.storage_type.clone()));
    b.bind(SqlValue::Text(c.reference.clone()));
    assert(arg_views(b.args@) =~= seq![
        SqlArg::Text(c.uid@),
        SqlArg::Text(c.filename@),
        stored_size_and_blob(*c).1,
        SqlArg::Text(c.mime_type@),
        SqlArg::Integer(stored_size_and_blob(*c).0),
        opt_int_arg(c.memo_id),
        SqlArg::Text(c.storage_type@),
        SqlArg::Text(c.reference@),
    ]);
    Ok(b.finish())
}

pub open spec fn id_piece(f: FindAttachment) -> (Seq<char>, Seq<SqlArg>) {
    match f.id {
        Some(i) => (" AND id = ?"@, seq![SqlArg::Integer(i as int)]),
        None => (seq![], seq![]),
    }
}

pub open spec fn uid_piece(f: FindAttachment) -> (Seq<char>, Seq<SqlArg>) {
    match f.uid {
        Some(u) => (" AND uid = ?"@, seq![SqlArg::Text(u@)]),
        None => (seq![], seq![]),
    }
}

pub open spec fn memo_piece(f: FindAttachment) -> (Seq<char>, Seq<SqlArg>) {
    match f.memo_id {
        Some(i) => (" AND memo_id = ?"@, seq![SqlArg::Integer(i as int)]),
        None => (seq![], seq![]),
    }
}

pub open spec fn memo_list_piece(f: FindAttachment) -> (Seq<char>, Seq<SqlArg>) {
    if f.memo_id_list@.len() > 0 {
        (
            " AND memo_id IN ("@ + placeholders(f.memo_id_list@.len()) + ")"@,
            int_args(f.memo_id_list@),
        )
    } else {
        (seq![], seq![])
    }
}

pub open spec fn no_memo_text(f: FindAttachment) -> Seq<char> {
    if f.memo_id_is_null {
        " AND memo_id IS NULL"@
    } else {
        seq![]
    }
}

/// The conditions of the list query, one per filter set.
pub open spec fn attachment_filters(f: FindAttachment) -> (Seq<char>, Seq<SqlArg>) {
    (
        id_piece(f).0 + uid_piece(f).0 + memo_piece(f).0 + memo_list_piece(f).0 + no_memo_text(f),
        id_piece(f).1 + uid_piece(f).1 + memo_piece(f).1 + memo_list_piece(f).1,
    )
}

/// The paging of the list query.
pub open spec fn attachment_paging(f: FindAttachment) -> (Seq<char>, Seq<SqlArg>) {
    let (t6, a6) = match f.limit {
        Some(l) => (" LIMIT ?"@, seq![SqlArg::Integer(l as int)]),
        None => (seq![], seq![]),
    };
    let (t7, a7) = match f.offset {
        Some(o) => (" OFFSET ?"@, seq![SqlArg::Integer(o as int)]),
        None => (seq![], seq![]),
    };
    (t6 + t7, a6 + a7)
}

/// The list query: blob only when asked, one condition per filter set, newest first, paged.
pub open spec fn attachment_query(f: FindAttachment) -> (Seq<char>, Seq<SqlArg>) {
    (
        "SELECT id, uid, created_ts, updated_ts, filename, "@ + (if f.get_blob {
            "blob, "@
        } else {
            "NULL AS blob, "@
        }) + "type, size, memo_id, storage_type, reference, payload FROM attachment WHERE 1=1"@
            + attachment_filters(f).0 + " ORDER BY created_ts DESC"@ + attachment_paging(f).0,
        attachment_filters(f).1 + attachment_paging(f).1,
    )
}

fn push_id(b: &mut SqlBuilder, find: &FindAttachment)
    ensures
        final(b).text@ == old(b).text@ + id_piece(*find).0,
        arg_views(final(b).args@) == arg_views(old(b).args@) + id_piece(*find).1,
{
    let ghost t0 = b.text@;
    let ghost a0 = arg_views(b.args@);
    if let Some(i) = find.id {
        b.push_bound(" AND id = ?", SqlValue::Integer(i as i64));
    }
    assert(b.text@ =~= t0 + id_piece(*find).0);
    assert(arg_views(b.args@) =~= a0 + id_piece(*find).1);
}

fn push_uid(b: &mut SqlBuilder, find: &FindAttachment)
    ensures
        final(b).text@ == old(b).text@ + uid_piece(*find).0,
        arg_views(final(b).args@) == arg_views(old(b).args@) + uid_piece(*find).1,
{
    let ghost t0 = b.text@;
    let ghost a0 = arg_views(b.args@);
    if let Some(u) = &find.uid {
        b.push_bound(" AND uid = ?", SqlValue::Text(u.clone()));
    }
    assert(b.text@ =~= t0 + uid_piece(*find).0);
    assert(arg_views(b.args@) =~= a0 + uid_piece(*find).1);
}

fn push_memo(b: &mut SqlBuilder, find: &FindAttachment)
    ensures
        final(b).text@ == old(b).text@ + memo_piece(*find).0,
        arg_views(final(b).args@) == arg_views(old(b).args@) + memo_piece(*find).1,
{
    let ghost t0 = b.text@;
    let ghost a0 = arg_views(b.args@);
    if let Some(i) = find.memo_id {
        b.push_bound(" AND memo_id = ?", SqlValue::Integer(i as i64));
    }
    assert(b.text@ =~= t0 + memo_piece(*find).0);
    assert(arg_views(b.args@) =~= a0 + memo_piece(*find).1);
}

fn push_memo_list(b: &mut SqlBuilder, find: &FindAttachment)
    ensures
        final(b).text@ == old(b).text@ + memo_list_piece(*find).0 + no_memo_text(*find),
        arg_views(final(b).args@) == arg_views(old(b).args@) + memo_list_piece(*find).1,
{
    let ghost t0 = b.text@;
    let ghost a0 = arg_views(b.args@);
    if find.memo_id_list.len() > 0 {
        b.push_str(" AND memo_id IN (");
        b.push_placeholders(find.memo_id_list.len());
        b.push_str(")");
        b.bind_ints(&find.memo_id_list);
    }
    assert(b.text@ =~= t0 + memo_list_piece(*find).0);
    assert(arg_views(b.args@) =~= a0 + memo_list_piece(*find).1);
    let ghost t1 = b.text@;
    if find.memo_id_is_null {
        b.push_str(" AND memo_id IS NULL");
    }
    assert(b.text@ =~= t1 + no_memo_text(*find));
}

fn push_filters(b: &mut SqlBuilder, find: &FindAttachment)
    ensures
        final(b).text@ == old(b).text@ + attachment_filters(*find).0,
        arg_views(final(b).args@) == arg_views(old(b).args@) + attachment_filters(*find).1,
{
    let ghost t0 = b.text@;
    let ghost a0 = arg_views(b.args@);
    push_id(b, find);
    push_uid(b, find);
    push_memo(b, find);
    push_memo_list(b, find);
    assert(b.text@ =~= t0 + attachment_filters(*find).0);
    assert(arg_views(b.args@) =~= a0 + attachment_filters(*find).1);
}

fn push_paging(b: &mut SqlBuilder, find: &FindAttachment)
    ensures
        final(b).text@ == old(b).text@ + attachment_paging(*find).0,
        arg_views(final(b).args@) == arg_views(old(b).args@) + attachment_paging(*find).1,
{
    let ghost t0 = b.text@;
    let ghost a0 = arg_views(b.args@);
    if let Some(l) = find.limit {
        b.push_bound(" LIMIT ?", SqlValue::Integer(l as i64));
    }
    if let Some(o) = find.offset {
        b.push_bound(" OFFSET ?", SqlValue::Integer(o as i64));
    }
    assert(b.text@ =~= t0 + attachment_paging(*find).0);
    assert(arg_views(b.args@) =~= a0 + attachment_paging(*find).1);
}

/// The statement that lists the attachments `find` selects.
pub fn build_list_query(find: &FindAttachment) -> (q: SqlQuery)
    ensures
        q.sql@ == attachment_query(*find).0,
        arg_views(q.args@) == attachment_query(*find).1,
{
    let mut b = SqlBuilder::new();
    b.push_str("SELECT id, uid, created_ts, updated_ts, filename, ");
    if find.get_blob {
        b.push_str("blob, ");
    } else {
        b.push_str("NULL AS blob, ");
    }
    b.push_str("type, size, memo_id, storage_type, reference, payload FROM attachment WHERE 1=1");
    push_filters(&mut b, find);
    b.push_str(" ORDER BY created_ts DESC");
    push_paging(&mut b, find);
    assert(b.text@ =~= attachment_query(*find).0);
    assert(arg_views(b.args@) =~= attachment_query(*find).1);
    b.finish()
}

/// The update statement: one assignment per field set, then the update time `now`, for the
/// row with the given id.
pub open spec fn attachment_update(u: UpdateAttachment, now: i64) -> (Seq<char>, Seq<SqlArg>) {
    let (t1, a1) = match u.filename {
        Some(f) => ("filename = ?, "@, seq![SqlArg::Text(f@)]),
        None => (seq![], seq![]),
    };
    let (t2, a2) = match u.memo_id {
        Some(m) => ("memo_id = ?, "@, seq![opt_int_arg(m)]),
        None => (seq![], seq![]),
    };
    let (t3, a3) = match u.payload {
        Some(p) => ("payload = ?, "@, seq![SqlArg::Text(p@)]),
        None => (seq![], seq![]),
    };
    (
        "UPDATE attachment SET "@ + t1 + t2 + t3 + "updated_ts = ? WHERE id = ?"@,
        a1 + a2 + a3 + seq![SqlArg::Integer(now as int), SqlArg::Integer(u.id as int)],
    )
}

/// The statement that applies `u` at time `now`.
pub fn build_update_query(u: &UpdateAttachment, now: i64) -> (q: SqlQuery)
    ensures
        q.sql@ == attachment_update(*u, now).0,
        arg_views(q.args@) == attachment_update(*u, now).1,
{
    let mut b = SqlBuilder::new();
    b.push_str("UPDATE attachment SET ");
    if let Some(f) = &u.filename {
        b.push_bound("filename = ?, ", SqlValue::Text(f.clone()));
    }
    if let Some(m) = u.memo_id {
        b.push_bound("memo_id = ?, ", opt_int_value(m));
    }
    if let Some(p) = &u.payload {
        b.push_bound("payload = ?, ", SqlValue::Text(p.clone()));
    }
    b.push_bound("updated_ts = ? WHERE id = ?", SqlValue::Integer(now));
    b.bind(SqlValue::Integer(u.id as i64));
    assert(b.text@ =~= attachment_update(*u, now).0);
    assert(arg_views(b.args@) =~= attachment_update(*u, now).1);
    b.finish()
}

/// The not-found error for an attachment id: `attachment id={id}`.
pub fn not_found(id: i32) -> (e: CoreError)
    ensures
        e matches CoreError::NotFound(m) && m@ == "attachment id="@ + signed_decimal(id as int),
{
    let mut v: Vec<char> = Vec::new();
    let prefix = crate::text::chars_of("attachment id=");
    crate::text::extend_chars(&mut v, prefix.as_slice());
    push_signed_decimal(&mut v, id as i64);
    CoreError::NotFound(string_from_chars(v.as_slice()))
}

/// The statement that reads where an attachment's bytes are kept (storage type and
/// reference), so a local file can be removed after the row.
pub fn stored_file_query(id: i32) -> (q: SqlQuery)
    ensures
        q.sql@ == "SELECT storage_type, reference FROM attachment WHERE id = ?"@,
        arg_views(q.args@) == seq![SqlArg::Integer(id as int)],
{
    let q = crate::sql::statement(
        "SELECT storage_type, reference FROM attachment WHERE id = ?",
        vec![SqlValue::Integer(id as i64)],
    );
    assert(arg_views(q.args@) =~= seq![SqlArg::Integer(id as int)]);
    q
}

/// The statement that deletes an attachment.
pub fn delete_query(id: i32) -> (q: SqlQuery)
    ensures
        q.sql@ == "DELETE FROM attachment WHERE id = ?"@,
        arg_views(q.args@) == seq![SqlArg::Integer(id as int)],
{
    let q = crate::sql::statement("DELETE FROM attachment WHERE id = ?", vec![SqlValue::Integer(id as i64)]);
    assert(arg_views(q.args@) =~= seq![SqlArg::Integer(id as int)]);
    q
}

/// A deletion that removed no row means the attachment does not exist; otherwise the
/// storage type and reference read before are handed on.
pub fn deletion_outcome(affected: usize, id: i32, stored: Option<(String, String)>) -> (r: Result<
    Option<(String, String)>,
    CoreError,
>)
    ensures
        affected > 0 ==> r == Ok::<Option<(String, String)>, CoreError>(stored),
        affected == 0 ==> (r matches Err(CoreError::NotFound(m)) && m@ == "attachment id="@
            + signed_decimal(id as int)),
{
    if affected == 0 {
        Err(not_found(id))
    } else {
        Ok(stored)
    }
}

} // verus!
