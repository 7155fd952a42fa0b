//! Links between memos and the statements that store and query them.
use crate::sql::{arg_views, int_args, placeholders, SqlArg, SqlBuilder, SqlQuery, SqlValue};
use crate::types::{relation_type_name, MemoRelationType};
use vstd::prelude::*;

verus! {

/// A link from one memo to another.
#[derive(Debug, Clone, Copy, PartialEq, Eq)]
pub struct MemoRelation {
    pub memo_id: i32,
    pub related_memo_id: i32,
    pub relation_type: MemoRelationType,
}

/// A link to add (adding one that exists changes nothing).
#[derive(Debug, Clone, Copy, PartialEq, Eq)]
pub struct UpsertMemoRelation {
    pub memo_id: i32,
    pub related_memo_id: i32,
    pub relation_type: MemoRelationType,
}

/// Link query filter.
#[derive(Debug, Clone)]
pub struct FindMemoRelation {
    pub memo_id: Option<i32>,
    pub related_memo_id: Option<i32>,
    pub relation_type: Option<MemoRelationType>,
    /// Links touching any of these memos, on either end.
    pub memo_id_list: Vec<i32>,
}

/// The statement that adds a link, and the link it stores.
pub fn build_upsert_query(u: &UpsertMemoRelation) -> (r: (SqlQuery, MemoRelation))
    ensures
        r.0.sql@ == "INSERT INTO memo_relation (memo_id, related_memo_id, type) VALUES (?1, ?2, ?3) ON CONFLICT(memo_id, related_memo_id, type) DO UPDATE SET type=excluded.type"@,
        arg_views(r.0.args@) == seq![
            SqlArg::Integer(u.memo_id as int),
            SqlArg::Integer(u.related_memo_id as int),
            SqlArg::Text(relation_type_name(u.relation_type)),
        ],
        r.1 == (MemoRelation {
            memo_id: u.memo_id,
            related_memo_id: u.related_memo_id,
            relation_type: u.relation_type,
        }),
{
    let mut b = SqlBuilder::new();
    b.push_str(
        "INSERT INTO memo_relation (memo_id, related_memo_id, type) VALUES (?1, ?2, ?3) ON CONFLICT(memo_id, related_memo_id, type) DO UPDATE SET type=excluded.type",
    );
    b.bind(SqlValue::Integer(u.memo_id as i64));
    b.bind(SqlValue::Integer(u.related_memo_id as i64));
    b.bind(SqlValue::Text(u.relation_type.as_str().to_owned()));
    assert(arg_views(b.args@) =~= seq![
        SqlArg::Integer(u.memo_id as int),
        SqlArg::Integer(u.related_memo_id as int),
        SqlArg::Text(relation_type_name(u.relation_type)),
    ]);
    (
        b.finish(),
        MemoRelation {
            memo_id: u.memo_id,
            related_memo_id: u.related_memo_id,
            relation_type: u.relation_type,
        },
    )
}

/// The list query; a list of memo ids matches either end, so its ids are bound twice.
pub open spec fn relation_query(f: FindMemoRelation) -> (Seq<char>, Seq<SqlArg>) {
    let (t1, a1) = match f.memo_id {
        Some(i) => (" AND memo_id = ?"@, seq![SqlArg::Integer(i as int)]),
        None => (seq![], seq![]),
    };
    let (t2, a2) = match f.related_memo_id {
        Some(i) => (" AND related_memo_id = ?"@, seq![SqlArg::Integer(i as int)]),
        None => (seq![], seq![]),
    };
    let (t3, a3) = match f.relation_type {
        Some(t) => (" AND type = ?"@, seq![SqlArg::Text(relation_type_name(t))]),
        None => (seq![], seq![]),
    };
    let n = f.memo_id_list@.len();
    let (t4, a4) = if n > 0 {
        (
            " AND (memo_id IN ("@ + placeholders(n) + ") OR related_memo_id IN ("@ + placeholders(n)
                + "))"@,
            int_args(f.memo_id_list@) + int_args(f.memo_id_list@),
        )
    } else {
        (seq![], seq![])
    };
    (
        "SELECT memo_id, related_memo_id, type FROM memo_relation WHERE 1=1"@ + t1 + t2 + t3 + t4,
        a1 + a2 + a3 + a4,
    )
}

/// The statement that lists the links `find` selects.
pub fn build_list_query(find: &FindMemoRelation) -> (q: SqlQuery)
    ensures
        q.sql@ == relation_query(*find).0,
        arg_views(q.args@) == relation_query(*find).1,
{
    let mut b = SqlBuilder::new();
    b.push_str("SELECT memo_id, related_memo_id, type FROM memo_relation WHERE 1=1");
    if let Some(i) = find.memo_id {
        b.push_bound(" AND memo_id = ?", SqlValue::Integer(i as i64));
    }
    if let Some(i) = find.related_memo_id {
        b.push_bound(" AND related_memo_id = ?", SqlValue::Integer(i as i64));
    }
    if let Some(t) = find.relation_type {
        b.push_bound(" AND type = ?", SqlValue::Text(t.as_str().to_owned()));
    }
    let n = find.memo_id_list.len();
    if n > 0 {
        b.push_str(" AND (memo_id IN (");
        b.push_placeholders(n);
        b.push_str(") OR related_memo_id IN (");
        b.push_placeholders(n);
        b.push_str("))");
        b.bind_ints(&find.memo_id_list);
        b.bind_ints(&find.memo_id_list);
    }
    assert(b.text@ =~= relation_query(*find).0);
    assert(arg_views(b.args@) =~= relation_query(*find).1);
    b.finish()
}

/// The statement that deletes one link.
pub fn delete_query(memo_id: i32, related_memo_id: i32, relation_type: MemoRelationType) -> (q:
    SqlQuery)
    ensures
        q.sql@
            == "DELETE FROM memo_relation WHERE memo_id = ?1 AND related_memo_id = ?2 AND type = ?3"@,
        arg_views(q.args@) == seq![
            SqlArg::Integer(memo_id as int),
            SqlArg::Integer(related_memo_id as int),
            SqlArg::Text(relation_type_name(relation_type)),
        ],
{
    let q = crate::sql::statement(
        "DELETE FROM memo_relation WHERE memo_id = ?1 AND related_memo_id = ?2 AND type = ?3",
        vec![
            SqlValue::Integer(memo_id as i64),
            SqlValue::Integer(related_memo_id as i64),
            SqlValue::Text(String::from_str(relation_type.as_str())),
        ],
    );
    assert(arg_views(q.args@) =~= seq![
        SqlArg::Integer(memo_id as int),
        SqlArg::Integer(related_memo_id as int),
        SqlArg::Text(relation_type_name(relation_type)),
    ]);
    q
}

/// A deletion that removed no row means the link does not exist:
/// `memo_relation {memo_id}->{related_memo_id}`.
pub fn deletion_outcome(affected: usize, memo_id: i32, related_memo_id: i32) -> (r: Result<
    (),
    crate::error::CoreError,
>)
    ensures
        affected > 0 <==> r is Ok,
        r matches Err(e) ==> (e matches crate::error::CoreError::NotFound(m) && m@
            == "memo_relation "@ + crate::text::signed_decimal(memo_id as int) + "->"@
            + crate::text::signed_decimal(related_memo_id as int)),
{
    if affected == 0 {
        let mut v = crate::text::chars_of("memo_relation ");
        crate::text::push_signed_decimal(&mut v, memo_id as i64);
        v.push('-');
        v.push('>');
        crate::text::push_signed_decimal(&mut v, related_memo_id as i64);
        proof {
            reveal_strlit("->");
        }
        Err(crate::error::CoreError::NotFound(crate::text::string_from_chars(v.as_slice())))
    } else {
        Ok(())
    }
}

} // verus!
