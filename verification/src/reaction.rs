//! Reactions to memos and the statements that store and query them.
use crate::sql::{arg_views, placeholders, text_args, SqlArg, SqlBuilder, SqlQuery, SqlValue};
use vstd::prelude::*;

verus! {

/// A reaction.
#[derive(Debug, Clone)]
pub struct Reaction {
    pub id: i32,
    pub created_ts: i64,
    pub content_id: String,
    pub reaction_type: String,
}

/// A reaction to add (adding one that exists changes nothing).
#[derive(Debug, Clone)]
pub struct UpsertReaction {
    pub content_id: String,
    pub reaction_type: String,
}

/// Reaction query filter.
#[derive(Debug, Clone)]
pub struct FindReaction {
    pub id: Option<i32>,
    pub content_id: Option<String>,
    pub content_id_list: Vec<String>,
}

/// The statement that adds a reaction unless the same one exists.
pub fn build_upsert_query(u: &UpsertReaction) -> (q: SqlQuery)
    ensures
        q.sql@ == "INSERT INTO reaction (content_id, reaction_type) VALUES (?1, ?2) ON CONFLICT(content_id, reaction_type) DO UPDATE SET content_id=excluded.content_id"@,
        arg_views(q.args@) == seq![SqlArg::Text(u.content_id@), SqlArg::Text(u.reaction_type@)],
{
    let mut b = SqlBuilder::new();
    b.push_str(
        "INSERT INTO reaction (content_id, reaction_type) VALUES (?1, ?2) ON CONFLICT(content_id, reaction_type) DO UPDATE SET content_id=excluded.content_id",
    );
    b.bind(SqlValue::Text(u.content_id.clone()));
    b.bind(SqlValue::Text(u.reaction_type.clone()));
    assert(arg_views(b.args@) =~= seq![SqlArg::Text(u.content_id@), SqlArg::Text(u.reaction_type@)]);
    b.finish()
}

/// The list query: one condition per filter set, oldest first.
pub open spec fn reaction_query(f: FindReaction) -> (Seq<char>, Seq<SqlArg>) {
    let (t1, a1) = match f.id {
        Some(id) => (" AND id = ?"@, seq![SqlArg::Integer(id as int)]),
        None => (seq![], seq![]),
    };
    let (t2, a2) = match f.content_id {
        Some(c) => (" AND content_id = ?"@, seq![SqlArg::Text(c@)]),
        None => (seq![], seq![]),
    };
    let (t3, a3) = if f.content_id_list@.len() > 0 {
        (
            " AND content_id IN ("@ + placeholders(f.content_id_list@.len()) + ")"@,
            text_args(f.content_id_list@),
        )
    } else {
        (seq![], seq![])
    };
    (
        "SELECT id, created_ts, content_id, reaction_type FROM reaction WHERE 1=1"@ + t1 + t2 + t3
            + " ORDER BY created_ts ASC"@,
        a1 + a2 + a3,
    )
}

/// The statement that lists the reactions `find` selects.
pub fn build_list_query(find: &FindReaction) -> (q: SqlQuery)
    ensures
        q.sql@ == reaction_query(*find).0,
        arg_views(q.args@) == reaction_query(*find).1,
{
    let mut b = SqlBuilder::new();
    b.push_str("SELECT id, created_ts, content_id, reaction_type FROM reaction WHERE 1=1");
    if let Some(id) = find.id {
        b.push_bound(" AND id = ?", SqlValue::Integer(id as i64));
    }
    if let Some(c) = &find.content_id {
        b.push_bound(" AND content_id = ?", SqlValue::Text(c.clone()));
    }
    if find.content_id_list.len() > 0 {
        b.push_str(" AND content_id IN (");
        b.push_placeholders(find.content_id_list.len());
        b.push_str(")");
        b.bind_texts(&find.content_id_list);
    }
    b.push_str(" ORDER BY created_ts ASC");
    assert(b.text@ =~= reaction_query(*find).0);
    assert(arg_views(b.args@) =~= reaction_query(*find).1);
    b.finish()
}

/// The statement that deletes a reaction.
pub fn delete_query(id: i32) -> (q: SqlQuery)
    ensures
        q.sql@ == "DELETE FROM reaction WHERE id = ?"@,
        arg_views(q.args@) == seq![SqlArg::Integer(id as int)],
{
    let q = crate::sql::statement("DELETE FROM reaction WHERE id = ?", vec![SqlValue::Integer(id as i64)]);
    assert(arg_views(q.args@) =~= seq![SqlArg::Integer(id as int)]);
    q
}

/// A deletion that removed no row means the reaction does not exist: `reaction id={id}`.
pub fn deletion_outcome(affected: usize, id: i32) -> (r: Result<(), crate::error::CoreError>)
    ensures
        affected > 0 <==> r is Ok,
        r matches Err(e) ==> (e matches crate::error::CoreError::NotFound(m) && m@
            == "reaction id="@ + crate::text::signed_decimal(id as int)),
{
    if affected == 0 {
        let mut v = crate::text::chars_of("reaction id=");
        crate::text::push_signed_decimal(&mut v, id as i64);
        Err(crate::error::CoreError::NotFound(crate::text::string_from_chars(v.as_slice())))
    } else {
        Ok(())
    }
}

/// The filter a stored reaction is read back with: every reaction on its content.
pub fn upsert_lookup(u: &UpsertReaction) -> (f: FindReaction)
    ensures
        f.id is None,
        f.content_id matches Some(c) && c@ == u.content_id@,
        f.content_id_list@.len() == 0,
{
    FindReaction { id: None, content_id: Some(u.content_id.clone()), content_id_list: Vec::new() }
}

/// What an upsert answers with, from the reactions on its content read back oldest first:
/// the first of them (the oldest reaction on that content, as the store has always answered),
/// or not found when there is none.
pub fn upserted_reaction(rows: Vec<Reaction>) -> (r: Result<Reaction, crate::error::CoreError>)
    ensures
        rows@.len() > 0 ==> (r matches Ok(x) && x == rows@[0]),
        rows@.len() == 0 ==> (r matches Err(crate::error::CoreError::NotFound(m)) && m@
            == "reaction"@),
{
    let mut rows = rows;
    if rows.len() == 0 {
        Err(upserted_missing())
    } else {
        Ok(rows.remove(0))
    }
}

/// The error for a reaction that cannot be read back right after it was stored.
pub fn upserted_missing() -> (e: crate::error::CoreError)
    ensures
        e matches crate::error::CoreError::NotFound(m) && m@ == "reaction"@,
{
    crate::error::CoreError::NotFound(String::from_str("reaction"))
}

} // verus!
