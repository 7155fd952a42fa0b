//! Backup and restore of memos as JSON: what one imported record becomes, and the
//! statements the import runs.
use crate::memo::CreateMemo;
use crate::sql::{arg_views, SqlArg, SqlBuilder, SqlQuery, SqlValue};
use crate::text::str_equals;
use crate::types::{RowStatus, Visibility};
use vstd::prelude::*;

verus! {

/// One record of an import file; absent fields take their defaults when the file is read.
#[derive(Debug, Clone)]
pub struct ImportMemoRecord {
    pub uid: Option<String>,
    pub content: String,
    pub visibility: Visibility,
    pub pinned: bool,
    /// JSON text of the payload (`{}` when absent).
    pub payload: String,
    /// JSON text of the location.
    pub location: Option<String>,
    pub created_ts: Option<i64>,
    pub row_status: Option<RowStatus>,
}

/// What importing one record does: the memo to create (unless its uid exists already),
/// the creation time to keep, and whether to archive it afterwards.
#[derive(Debug, Clone)]
pub struct ImportPlan {
    pub create: CreateMemo,
    pub created_ts: Option<i64>,
    pub archive: bool,
}

/// The plan for a record: its uid, or `generated_uid` when it has none; its fields as they
/// are; archived afterwards when its status says so.
pub fn import_plan(rec: ImportMemoRecord, generated_uid: String) -> (p: ImportPlan)
    ensures
        p.create.uid == match rec.uid {
            Some(u) => u,
            None => generated_uid,
        },
        p.create.content == rec.content,
        p.create.visibility == rec.visibility,
        p.create.pinned == rec.pinned,
        p.create.payload == rec.payload,
        p.create.location == rec.location,
        p.created_ts == rec.created_ts,
        p.archive == (rec.row_status == Some(RowStatus::Archived)),
{
    let uid = match rec.uid {
        Some(u) => u,
        None => generated_uid,
    };
    let archive = match rec.row_status {
        Some(RowStatus::Archived) => true,
        _ => false,
    };
    ImportPlan {
        create: CreateMemo {
            uid,
            content: rec.content,
            visibility: rec.visibility,
            pinned: rec.pinned,
            payload: rec.payload,
            location: rec.location,
        },
        created_ts: rec.created_ts,
        archive,
    }
}

/// Whether plan `k` of a batch reuses the uid of an earlier plan of the batch.
pub open spec fn uid_seen_before(plans: Seq<ImportPlan>, k: int) -> bool {
    exists|j: int| 0 <= j < k && #[trigger] plans[j].create.uid@ == plans[k].create.uid@
}

/// Whether plan `k` of a batch is imported: its uid is neither in the table before the
/// import (`existing[k]`) nor used by an earlier plan of the batch.
pub open spec fn imported(plans: Seq<ImportPlan>, existing: Seq<bool>, k: int) -> bool {
    !existing[k] && !uid_seen_before(plans, k)
}

/// The plans among the first `n` of a batch that are imported, in order.
pub open spec fn imported_upto(plans: Seq<ImportPlan>, existing: Seq<bool>, n: int) -> Seq<
    ImportPlan,
>
    decreases n,
{
    if n <= 0 {
        seq![]
    } else {
        imported_upto(plans, existing, n - 1) + if imported(plans, existing, n - 1) {
            seq![plans[n - 1]]
        } else {
            seq![]
        }
    }
}

/// The plans of a batch that are imported, in order: exactly those whose uid is new to the
/// table (`existing[k]` says whether plan `k`'s uid was in it before the import) and to the
/// batch so far, so that running the same import again creates nothing.
pub fn select_imports(plans: Vec<ImportPlan>, existing: &Vec<bool>) -> (r: Vec<ImportPlan>)
    requires
        plans.len() == existing.len(),
    ensures
        r@ == imported_upto(plans@, existing@, plans@.len() as int),
{
    let ghost all = plans@;
    let mut keep: Vec<bool> = Vec::new();
    let mut k: usize = 0;
    while k < plans.len()
        invariant
            k <= plans.len(),
            plans@ == all,
            plans.len() == existing.len(),
            keep@.len() == k,
            forall|q: int| 0 <= q < k ==> #[trigger] keep@[q] == imported(all, existing@, q),
        decreases plans.len() - k,
    {
        let mut seen = false;
        let mut j: usize = 0;
        while j < k
            invariant
                j <= k < plans.len(),
                plans@ == all,
                seen <==> exists|q: int| 0 <= q < j && #[trigger] all[q].create.uid@ == all[k as int].create.uid@,
            decreases k - j,
        {
            if str_equals(plans[j].create.uid.as_str(), plans[k].create.uid.as_str()) {
                seen = true;
            }
            j = j + 1;
        }
        keep.push(!existing[k] && !seen);
        k = k + 1;
    }
    let mut rest = plans;
    let mut out: Vec<ImportPlan> = Vec::new();
    let mut i: usize = 0;
    while rest.len() > 0
        invariant
            i <= all.len(),
            rest@ == all.skip(i as int),
            keep@.len() == all.len(),
            keep.len() == all.len(),
            forall|q: int| 0 <= q < all.len() ==> #[trigger] keep@[q] == imported(all, existing@, q),
            out@ == imported_upto(all, existing@, i as int),
        decreases rest.len(),
    {
        assert(rest@.len() == all.len() - i);
        let p = rest.remove(0);
        assert(p == all[i as int]);
        if keep[i] {
            out.push(p);
        }
        assert(all.skip(i as int).skip(1) =~= all.skip(i + 1));
        i = i + 1;
        assert(out@ =~= imported_upto(all, existing@, i as int));
    }
    assert(i == all.len());
    out
}

/// The statement counting memos with a uid (a record whose uid exists is skipped).
pub fn uid_count_query(uid: &str) -> (q: SqlQuery)
    ensures
        q.sql@ == "SELECT COUNT(*) FROM memo WHERE uid = ?1"@,
        arg_views(q.args@) == seq![SqlArg::Text(uid@)],
{
    let mut b = SqlBuilder::new();
    b.push_str("SELECT COUNT(*) FROM memo WHERE uid = ?1");
    b.bind(SqlValue::Text(String::from_str(uid)));
    assert(b.text@ =~= "SELECT COUNT(*) FROM memo WHERE uid = ?1"@);
    assert(arg_views(b.args@) =~= seq![SqlArg::Text(uid@)]);
    b.finish()
}

/// The statement that gives an imported memo its original creation time.
pub fn created_ts_query(id: i32, ts: i64) -> (q: SqlQuery)
    ensures
        q.sql@ == "UPDATE memo SET created_ts = ?1 WHERE id = ?2"@,
        arg_views(q.args@) == seq![SqlArg::Integer(ts as int), SqlArg::Integer(id as int)],
{
    let mut b = SqlBuilder::new();
    b.push_str("UPDATE memo SET created_ts = ?1 WHERE id = ?2");
    b.bind(SqlValue::Integer(ts));
    b.bind(SqlValue::Integer(id as i64));
    assert(b.text@ =~= "UPDATE memo SET created_ts = ?1 WHERE id = ?2"@);
    assert(arg_views(b.args@) =~= seq![SqlArg::Integer(ts as int), SqlArg::Integer(id as int)]);
    b.finish()
}

/// The statement that archives an imported memo.
pub fn archive_query(id: i32) -> (q: SqlQuery)
    ensures
        q.sql@ == "UPDATE memo SET row_status = 'ARCHIVED' WHERE id = ?1"@,
        arg_views(q.args@) == seq![SqlArg::Integer(id as int)],
{
    let mut b = SqlBuilder::new();
    b.push_str("UPDATE memo SET row_status = 'ARCHIVED' WHERE id = ?1");
    b.bind(SqlValue::Integer(id as i64));
    assert(b.text@ =~= "UPDATE memo SET row_status = 'ARCHIVED' WHERE id = ?1"@);
    assert(arg_views(b.args@) =~= seq![SqlArg::Integer(id as int)]);
    b.finish()
}

} // verus!
