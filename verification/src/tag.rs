//! The tag table: every tag written in the memos, with how many memos carry it.
//!
//! The `#tag`s in memo contents are the source of truth; the table is kept in step with them
//! when memos are created, changed or removed, and can be rebuilt from them at any time.
//! The count of a tag is the number of memos whose content carries it.
use crate::markdown::{
    contains_chars, extract_tags, lemma_remove_duplicates_no_dup, string_views, tags_of,
};
use crate::sql::{arg_views, SqlArg, SqlBuilder, SqlQuery, SqlValue};
use vstd::prelude::*;

verus! {

/// Adds one to the count of a tag, creating it with count 1 (arguments: name, time).
pub const TAG_INCREMENT_SQL: &'static str =
    "INSERT INTO tag (name, count, created_ts, updated_ts) VALUES (?1, 1, ?2, ?2) ON CONFLICT(name) DO UPDATE SET count = count + 1, updated_ts = ?2";

/// Takes one from the count of a tag (arguments: name, time).
pub const TAG_DECREMENT_SQL: &'static str =
    "UPDATE tag SET count = count - 1, updated_ts = ?2 WHERE name = ?1";

/// Drops the tags no memo carries any more.
pub const TAG_PRUNE_SQL: &'static str = "DELETE FROM tag WHERE count <= 0";

/// Empties the table before a rebuild.
pub const TAG_CLEAR_SQL: &'static str = "DELETE FROM tag";

/// Inserts a tag with its count (arguments: name, count, time).
pub const TAG_INSERT_SQL: &'static str =
    "INSERT INTO tag (name, count, created_ts, updated_ts) VALUES (?1, ?2, ?3, ?3)";

/// All tags with their counts, most used first, then by name.
pub const TAG_LIST_SQL: &'static str = "SELECT name, count FROM tag ORDER BY count DESC, name ASC";

/// The contents a rebuild counts: those of normal memos that are not comments.
pub const TAG_SOURCE_SQL: &'static str =
    "SELECT content FROM memo WHERE row_status = 'NORMAL' AND parent_id IS NULL";

/// How many of the contents carry the tag `t`.
pub open spec fn carrying(cs: Seq<Seq<char>>, t: Seq<char>) -> nat
    decreases cs.len(),
{
    if cs.len() == 0 {
        0
    } else {
        carrying(cs.drop_last(), t) + if tags_of(cs.last()).contains(t) {
            1nat
        } else {
            0nat
        }
    }
}

/// The tags of the contents, each once, in order of first appearance.
pub open spec fn tag_names(cs: Seq<Seq<char>>) -> Seq<Seq<char>>
    decreases cs.len(),
{
    if cs.len() == 0 {
        seq![]
    } else {
        tags_of(cs.last()).remove_duplicates(tag_names(cs.drop_last()))
    }
}

/// The content views of a list of strings.
pub open spec fn content_views(v: Seq<String>) -> Seq<Seq<char>> {
    v.map_values(|s: String| s@)
}

/// The tags added by an edit: those of the new content that the old one lacks.
pub open spec fn added_tags(old: Seq<char>, new: Seq<char>) -> Seq<Seq<char>> {
    tags_of(new).filter(|t: Seq<char>| !tags_of(old).contains(t))
}

/// The tags removed by an edit: those of the old content that the new one lacks.
pub open spec fn removed_tags(old: Seq<char>, new: Seq<char>) -> Seq<Seq<char>> {
    tags_of(old).filter(|t: Seq<char>| !tags_of(new).contains(t))
}

/// Appending one element to a list appends it to the list without duplicates unless it is
/// there already.
pub proof fn lemma_remove_duplicates_push<A>(a: Seq<A>, x: A, seen: Seq<A>)
    ensures
        a.push(x).remove_duplicates(seen) == if a.remove_duplicates(seen).contains(x) {
            a.remove_duplicates(seen)
        } else {
            a.remove_duplicates(seen).push(x)
        },
    decreases a.len(),
{
    if a.len() == 0 {
        assert(a.push(x).skip(1) =~= Seq::<A>::empty());
        assert(seen + seq![x] =~= seen.push(x));
        assert(a.push(x)[0] == x);
        assert(a.remove_duplicates(seen) == seen);
        assert(Seq::<A>::empty().remove_duplicates(seen) == seen);
        assert(Seq::<A>::empty().remove_duplicates(seen + seq![x]) == seen + seq![x]);
    } else {
        let next = if seen.contains(a[0]) {
            seen
        } else {
            seen + seq![a[0]]
        };
        assert(a.push(x).skip(1) =~= a.skip(1).push(x));
        assert(a.push(x)[0] == a[0]);
        assert(a.remove_duplicates(seen) == a.skip(1).remove_duplicates(next));
        assert(a.push(x).remove_duplicates(seen) == a.push(x).skip(1).remove_duplicates(next));
        lemma_remove_duplicates_push(a.skip(1), x, next);
    }
}

/// A tag carried by some content is among the tag names.
pub proof fn lemma_carried_is_named(cs: Seq<Seq<char>>, t: Seq<char>)
    ensures
        carrying(cs, t) <= cs.len(),
        carrying(cs, t) > 0 ==> tag_names(cs).contains(t),
        tag_names(cs).no_duplicates(),
    decreases cs.len(),
{
    if cs.len() > 0 {
        lemma_carried_is_named(cs.drop_last(), t);
        lemma_remove_duplicates_no_dup(tags_of(cs.last()), tag_names(cs.drop_last()));
    }
}

/// The tags the edit of a memo from `old_content` to `new_content` adds and removes, each in
/// order of first occurrence.
pub fn tag_changes(old_content: &str, new_content: &str) -> (r: (Vec<String>, Vec<String>))
    ensures
        string_views(r.0@) == added_tags(old_content@, new_content@),
        string_views(r.1@) == removed_tags(old_content@, new_content@),
{
    let old_tags = extract_tags(old_content);
    let new_tags = extract_tags(new_content);
    let added = tags_missing_from(&new_tags, &old_tags);
    let removed = tags_missing_from(&old_tags, &new_tags);
    (added, removed)
}

/// The strings of `from` that `other` lacks, in order.
fn tags_missing_from(from: &Vec<String>, other: &Vec<String>) -> (r: Vec<String>)
    ensures
        string_views(r@) == string_views(from@).filter(
            |t: Seq<char>| !string_views(other@).contains(t),
        ),
{
    let ghost pred = |t: Seq<char>| !string_views(other@).contains(t);
    let mut out: Vec<String> = Vec::new();
    let mut k: usize = 0;
    assert(string_views(out@) =~= seq![]);
    while k < from.len()
        invariant
            k <= from.len(),
            pred == (|t: Seq<char>| !string_views(other@).contains(t)),
            string_views(out@) == string_views(from@).take(k as int).filter(pred),
        decreases from.len() - k,
    {
        proof {
            reveal_with_fuel(Seq::filter, 1);
            assert(string_views(from@).take(k + 1).drop_last() =~= string_views(from@).take(
                k as int,
            ));
            assert(string_views(from@).take(k + 1).last() == from@[k as int]@);
        }
        if !contains_chars(other, &from[k]) {
            let ghost before = string_views(out@);
            out.push(from[k].clone());
            assert(string_views(out@) =~= before.push(from@[k as int]@));
        }
        k = k + 1;
    }
    assert(string_views(from@).take(from.len() as int) =~= string_views(from@));
    out
}

/// Position of the string that reads as `t`, if any.
fn find_string(v: &Vec<String>, t: &String) -> (r: Option<usize>)
    ensures
        match r {
            Some(p) => p < v.len() && v@[p as int]@ == t@,
            None => forall|q: int| 0 <= q < v.len() ==> v@[q]@ != t@,
        },
{
    let mut p: usize = 0;
    while p < v.len()
        invariant
            p <= v.len(),
            forall|q: int| 0 <= q < p ==> v@[q]@ != t@,
        decreases v.len() - p,
    {
        if v[p] == *t {
            return Some(p);
        }
        p = p + 1;
    }
    None
}

/// Every tag of the contents with how many of them carry it, the tags in order of first
/// appearance (what a rebuild inserts).
pub struct TagTally {
    pub names: Vec<String>,
    pub counts: Vec<i32>,
}

/// Counts the tags of the contents.
pub fn tag_counts(contents: &Vec<String>) -> (r: TagTally)
    requires
        contents.len() < i32::MAX,
    ensures
        string_views(r.names@) == tag_names(content_views(contents@)),
        r.counts.len() == r.names.len(),
        forall|p: int|
            0 <= p < r.names.len() ==> #[trigger] r.counts@[p] == carrying(
                content_views(contents@),
                r.names@[p]@,
            ),
{
    let ghost cs = content_views(contents@);
    let mut names: Vec<String> = Vec::new();
    let mut counts: Vec<i32> = Vec::new();
    let mut k: usize = 0;
    assert(string_views(names@) =~= seq![]);
    assert(cs.take(0) =~= Seq::<Seq<char>>::empty());
    while k < contents.len()
        invariant
            k <= contents.len() < i32::MAX,
            cs == content_views(contents@),
            string_views(names@) == tag_names(cs.take(k as int)),
            counts.len() == names.len(),
            forall|p: int|
                0 <= p < names.len() ==> #[trigger] counts@[p] == carrying(
                    cs.take(k as int),
                    names@[p]@,
                ),
        decreases contents.len() - k,
    {
        let ghost prev = cs.take(k as int);
        let ghost prev_names = string_views(names@);
        let tags = extract_tags(contents[k].as_str());
        let ghost tl = string_views(tags@);
        proof {
            lemma_remove_duplicates_no_dup(
                crate::markdown::tag_occurrences(contents@[k as int]@, 0),
                seq![],
            );
            lemma_carried_is_named(prev, seq![]);
            assert(tl.take(0) =~= Seq::<Seq<char>>::empty());
            assert(cs.len() == contents.len());
        }
        let mut j: usize = 0;
        while j < tags.len()
            invariant
                j <= tags.len(),
                k < contents.len() < i32::MAX,
                tl == string_views(tags@),
                tl.no_duplicates(),
                prev == cs.take(k as int),
                prev.len() == k,
                prev_names == tag_names(prev),
                prev_names.no_duplicates(),
                string_views(names@) == tl.take(j as int).remove_duplicates(prev_names),
                string_views(names@).no_duplicates(),
                counts.len() == names.len(),
                forall|p: int|
                    0 <= p < names.len() ==> #[trigger] counts@[p] == carrying(prev, names@[p]@)
                        + if tl.take(j as int).contains(names@[p]@) {
                        1int
                    } else {
                        0int
                    },
            decreases tags.len() - j,
        {
            let ghost t = tl[j as int];
            proof {
                lemma_remove_duplicates_push(tl.take(j as int), t, prev_names);
                assert(tl.take(j + 1) =~= tl.take(j as int).push(t));
                assert(!tl.take(j as int).contains(t)) by {
                    if tl.take(j as int).contains(t) {
                        let q = choose|q: int| 0 <= q < j && tl.take(j as int)[q] == t;
                        assert(tl[q] == tl[j as int]);
                    }
                }
            }
            let pos = find_string(&names, &tags[j]);
            proof {
                lemma_remove_duplicates_no_dup(tl.take(j as int), prev_names);
                lemma_carried_is_named(prev, t);
            }
            if let Some(p) = pos {
                assert(string_views(names@)[p as int] == t);
                assert(carrying(prev, t) <= prev.len());
                assert(prev.len() == k);
                assert(counts@[p as int] == carrying(prev, t));
                let c = counts[p];
                counts.set(p, c + 1);
                proof {
                    assert(string_views(names@).contains(t));
                    assert forall|q: int| 0 <= q < names.len() implies #[trigger] counts@[q]
                        == carrying(prev, names@[q]@) + if tl.take(j + 1).contains(names@[q]@) {
                        1int
                    } else {
                        0int
                    } by {
                        if q != p {
                            assert(string_views(names@)[q] != string_views(names@)[p as int]);
                            assert(tl.take(j + 1).contains(names@[q]@) == tl.take(
                                j as int,
                            ).contains(names@[q]@)) by {
                                if tl.take(j + 1).contains(names@[q]@) {
                                    let w = choose|w: int|
                                        0 <= w < j + 1 && #[trigger] tl.take(j + 1)[w] == names@[q]@;
                                    if w < j {
                                        assert(tl.take(j as int)[w] == names@[q]@);
                                    }
                                }
                            }
                        } else {
                            assert(tl.take(j + 1)[j as int] == t);
                        }
                    }
                }
            } else {
                assert(!string_views(names@).contains(t)) by {
                    if string_views(names@).contains(t) {
                        let q = choose|q: int|
                            0 <= q < string_views(names@).len() && string_views(names@)[q] == t;
                        assert(names@[q]@ == t);
                    }
                }
                assert(!prev_names.contains(t));
                assert(carrying(prev, t) == 0);
                let ghost before = string_views(names@);
                let ghost old_counts = counts@;
                let ghost old_names = names@;
                names.push(tags[j].clone());
                counts.push(1);
                proof {
                    assert(string_views(names@) =~= before.push(t));
                    assert forall|q: int| 0 <= q < names.len() implies #[trigger] counts@[q]
                        == carrying(prev, names@[q]@) + if tl.take(j + 1).contains(names@[q]@) {
                        1int
                    } else {
                        0int
                    } by {
                        if q < old_names.len() {
                            assert(names@[q] == old_names[q]);
                            assert(counts@[q] == old_counts[q]);
                            assert(before[q] != t);
                            assert(tl.take(j + 1).contains(names@[q]@) == tl.take(
                                j as int,
                            ).contains(names@[q]@)) by {
                                if tl.take(j + 1).contains(names@[q]@) {
                                    let w = choose|w: int|
                                        0 <= w < j + 1 && #[trigger] tl.take(j + 1)[w] == names@[q]@;
                                    if w < j {
                                        assert(tl.take(j as int)[w] == names@[q]@);
                                    }
                                }
                            }
                        } else {
                            assert(names@[q]@ == t);
                            assert(tl.take(j + 1)[j as int] == t);
                        }
                    }
                    lemma_remove_duplicates_no_dup(tl.take(j + 1), prev_names);
                }
            }
            j = j + 1;
        }
        proof {
            assert(tl.take(tags.len() as int) =~= tl);
            let nxt = cs.take(k + 1);
            assert(nxt.drop_last() =~= prev);
            assert(nxt.last() == contents@[k as int]@);
            assert forall|p: int| 0 <= p < names.len() implies #[trigger] counts@[p] == carrying(
                nxt,
                names@[p]@,
            ) by {}
        }
        k = k + 1;
    }
    assert(cs.take(contents.len() as int) =~= cs);
    TagTally { names, counts }
}

/// The statement that adds one to a tag's count, or creates it.
pub fn tag_increment_query(tag: &String, now: i64) -> (q: SqlQuery)
    ensures
        q.sql@ == TAG_INCREMENT_SQL@,
        arg_views(q.args@) == seq![SqlArg::Text(tag@), SqlArg::Integer(now as int)],
{
    tag_statement(TAG_INCREMENT_SQL, tag, now)
}

/// The statement that takes one from a tag's count.
pub fn tag_decrement_query(tag: &String, now: i64) -> (q: SqlQuery)
    ensures
        q.sql@ == TAG_DECREMENT_SQL@,
        arg_views(q.args@) == seq![SqlArg::Text(tag@), SqlArg::Integer(now as int)],
{
    tag_statement(TAG_DECREMENT_SQL, tag, now)
}

fn tag_statement(sql: &str, tag: &String, now: i64) -> (q: SqlQuery)
    ensures
        q.sql@ == sql@,
        arg_views(q.args@) == seq![SqlArg::Text(tag@), SqlArg::Integer(now as int)],
{
    let mut b = SqlBuilder::new();
    b.push_str(sql);
    b.bind(SqlValue::Text(tag.clone()));
    b.bind(SqlValue::Integer(now));
    assert(b.text@ =~= sql@);
    assert(arg_views(b.args@) =~= seq![SqlArg::Text(tag@), SqlArg::Integer(now as int)]);
    b.finish()
}

/// The statements that put a whole tally in the emptied table.
pub fn tag_insert_queries(tally: &TagTally, now: i64) -> (qs: Vec<SqlQuery>)
    requires
        tally.counts.len() == tally.names.len(),
    ensures
        qs.len() == tally.names.len(),
        forall|p: int|
            0 <= p < qs.len() ==> {
                &&& (#[trigger] qs@[p]).sql@ == TAG_INSERT_SQL@
                &&& arg_views(qs@[p].args@) == seq![
                    SqlArg::Text(tally.names@[p]@),
                    SqlArg::Integer(tally.counts@[p] as int),
                    SqlArg::Integer(now as int),
                ]
            },
{
    let mut qs: Vec<SqlQuery> = Vec::new();
    let mut p: usize = 0;
    while p < tally.names.len()
        invariant
            p <= tally.names.len(),
            tally.counts.len() == tally.names.len(),
            qs.len() == p,
            forall|q: int|
                0 <= q < p ==> {
                    &&& (#[trigger] qs@[q]).sql@ == TAG_INSERT_SQL@
                    &&& arg_views(qs@[q].args@) == seq![
                        SqlArg::Text(tally.names@[q]@),
                        SqlArg::Integer(tally.counts@[q] as int),
                        SqlArg::Integer(now as int),
                    ]
                },
        decreases tally.names.len() - p,
    {
        let mut b = SqlBuilder::new();
        b.push_str(TAG_INSERT_SQL);
        b.bind(SqlValue::Text(tally.names[p].clone()));
        b.bind(SqlValue::Integer(tally.counts[p] as i64));
        b.bind(SqlValue::Integer(now));
        assert(b.text@ =~= TAG_INSERT_SQL@);
        assert(arg_views(b.args@) =~= seq![
            SqlArg::Text(tally.names@[p as int]@),
            SqlArg::Integer(tally.counts@[p as int] as int),
            SqlArg::Integer(now as int),
        ]);
        qs.push(b.finish());
        p = p + 1;
    }
    qs
}

/// Creating a memo adds one to the count of each of its tags and leaves the others as
/// they are.
pub proof fn law_create_counts(cs: Seq<Seq<char>>, c: Seq<char>, t: Seq<char>)
    ensures
        carrying(cs.push(c), t) == carrying(cs, t) + if tags_of(c).contains(t) {
            1nat
        } else {
            0nat
        },
{
    assert(cs.push(c).drop_last() =~= cs);
}

/// Removing a memo takes one from the count of each of its tags and leaves the others as
/// they are.
pub proof fn law_remove_counts(cs: Seq<Seq<char>>, i: int, t: Seq<char>)
    requires
        0 <= i < cs.len(),
    ensures
        carrying(cs, t) == carrying(cs.remove(i), t) + if tags_of(cs[i]).contains(t) {
            1nat
        } else {
            0nat
        },
    decreases cs.len(),
{
    if i == cs.len() - 1 {
        assert(cs.remove(i) =~= cs.drop_last());
    } else {
        law_remove_counts(cs.drop_last(), i, t);
        assert(cs.remove(i).drop_last() =~= cs.drop_last().remove(i));
        assert(cs.remove(i).last() == cs.last());
    }
}

/// Editing a memo changes the count of a tag by one up when the edit adds it, by one down
/// when it removes it, and not otherwise: counts kept by `tag_changes` stay those a rebuild
/// gives.
pub proof fn law_edit_counts(cs: Seq<Seq<char>>, i: int, new: Seq<char>, t: Seq<char>)
    requires
        0 <= i < cs.len(),
    ensures
        carrying(cs.update(i, new), t) + (if removed_tags(cs[i], new).contains(t) {
            1int
        } else {
            0int
        }) == carrying(cs, t) + (if added_tags(cs[i], new).contains(t) {
            1int
        } else {
            0int
        }),
{
    law_remove_counts(cs, i, t);
    law_remove_counts(cs.update(i, new), i, t);
    assert(cs.update(i, new).remove(i) =~= cs.remove(i));
    let old = cs[i];
    let pa = |x: Seq<char>| !tags_of(old).contains(x);
    let pr = |x: Seq<char>| !tags_of(new).contains(x);
    assert(added_tags(old, new).contains(t) <==> (tags_of(new).contains(t) && !tags_of(
        old,
    ).contains(t))) by {
        if added_tags(old, new).contains(t) {
            tags_of(new).lemma_filter_contains_rev(pa, t);
        }
        if tags_of(new).contains(t) && pa(t) {
            let q = choose|q: int| 0 <= q < tags_of(new).len() && tags_of(new)[q] == t;
            tags_of(new).lemma_filter_contains(pa, q);
        }
    }
    assert(removed_tags(old, new).contains(t) <==> (tags_of(old).contains(t) && !tags_of(
        new,
    ).contains(t))) by {
        if removed_tags(old, new).contains(t) {
            tags_of(old).lemma_filter_contains_rev(pr, t);
        }
        if tags_of(old).contains(t) && pr(t) {
            let q = choose|q: int| 0 <= q < tags_of(old).len() && tags_of(old)[q] == t;
            tags_of(old).lemma_filter_contains(pr, q);
        }
    }
}

// ---------------------------------------------------------------------------
// The tag table as the statements leave it
// ---------------------------------------------------------------------------

/// The count of `t` in a table, 0 when it has no row.
pub open spec fn count_in(table: Map<Seq<char>, int>, t: Seq<char>) -> int {
    if table.contains_key(t) {
        table[t]
    } else {
        0
    }
}

/// The table a set of contents stands for: one row per tag some content carries, with the
/// number of contents that carry it (what `tag_counts` gives and a rebuild inserts).
pub open spec fn table_of(cs: Seq<Seq<char>>) -> Map<Seq<char>, int> {
    Map::new(|t: Seq<char>| carrying(cs, t) > 0, |t: Seq<char>| carrying(cs, t) as int)
}

/// The table after `TAG_INCREMENT_SQL` for each tag in turn: a new row with count 1, or one
/// more on an existing row.
pub open spec fn incremented(table: Map<Seq<char>, int>, ts: Seq<Seq<char>>) -> Map<
    Seq<char>,
    int,
>
    decreases ts.len(),
{
    if ts.len() == 0 {
        table
    } else {
        let m = incremented(table, ts.drop_last());
        m.insert(ts.last(), count_in(m, ts.last()) + 1)
    }
}

/// The table after `TAG_DECREMENT_SQL` for each tag in turn: one less on an existing row,
/// nothing for a tag without one.
pub open spec fn decremented(table: Map<Seq<char>, int>, ts: Seq<Seq<char>>) -> Map<
    Seq<char>,
    int,
>
    decreases ts.len(),
{
    if ts.len() == 0 {
        table
    } else {
        let m = decremented(table, ts.drop_last());
        if m.contains_key(ts.last()) {
            m.insert(ts.last(), m[ts.last()] - 1)
        } else {
            m
        }
    }
}

/// The table after `TAG_PRUNE_SQL`: the rows whose count is at most 0 dropped.
pub open spec fn pruned(table: Map<Seq<char>, int>) -> Map<Seq<char>, int> {
    Map::new(|t: Seq<char>| table.contains_key(t) && table[t] > 0, |t: Seq<char>| table[t])
}

/// The table after an edit that adds the tags `added` and removes `removed`: the increments,
/// then the decrements and the pruning when something was removed (as `sync_tags_on_update`
/// runs them).
pub open spec fn after_edit(
    table: Map<Seq<char>, int>,
    added: Seq<Seq<char>>,
    removed: Seq<Seq<char>>,
) -> Map<Seq<char>, int> {
    let up = incremented(table, added);
    if removed.len() == 0 {
        up
    } else {
        pruned(decremented(up, removed))
    }
}

proof fn lemma_filter_no_duplicates(s: Seq<Seq<char>>, p: spec_fn(Seq<char>) -> bool)
    requires
        s.no_duplicates(),
    ensures
        s.filter(p).no_duplicates(),
    decreases s.len(),
{
    if s.len() > 0 {
        let d = s.drop_last();
        assert(d.no_duplicates()) by {
            assert forall|i: int, j: int| 0 <= i < d.len() && 0 <= j < d.len() && i != j implies d[i]
                != d[j] by {
                assert(d[i] == s[i] && d[j] == s[j]);
            }
        }
        lemma_filter_no_duplicates(d, p);
        let sub = d.filter(p);
        reveal(Seq::filter);
        assert(s.filter(p) == if p(s.last()) {
            sub.push(s.last())
        } else {
            sub
        });
        if p(s.last()) {
            if sub.contains(s.last()) {
                d.lemma_filter_contains_rev(p, s.last());
                let k = choose|k: int| 0 <= k < d.len() && d[k] == s.last();
                assert(s[k] == s[s.len() - 1]);
            }
            let f = sub.push(s.last());
            assert forall|i: int, j: int| 0 <= i < f.len() && 0 <= j < f.len() && i != j implies f[i]
                != f[j] by {
                if i == f.len() - 1 {
                    assert(!sub.contains(f[i]));
                    assert(f[j] == sub[j]);
                } else if j == f.len() - 1 {
                    assert(!sub.contains(f[j]));
                    assert(f[i] == sub[i]);
                } else {
                    assert(f[i] == sub[i] && f[j] == sub[j]);
                }
            }
        }
    }
}

proof fn lemma_incremented(table: Map<Seq<char>, int>, ts: Seq<Seq<char>>, t: Seq<char>)
    requires
        ts.no_duplicates(),
    ensures
        count_in(incremented(table, ts), t) == count_in(table, t) + if ts.contains(t) {
            1int
        } else {
            0int
        },
        incremented(table, ts).contains_key(t) <==> (table.contains_key(t) || ts.contains(t)),
    decreases ts.len(),
{
    if ts.len() > 0 {
        let d = ts.drop_last();
        assert(d.no_duplicates()) by {
            assert forall|i: int, j: int| 0 <= i < d.len() && 0 <= j < d.len() && i != j implies d[i]
                != d[j] by {
                assert(d[i] == ts[i] && d[j] == ts[j]);
            }
        }
        lemma_incremented(table, d, t);
        assert(ts.contains(t) <==> (d.contains(t) || ts.last() == t)) by {
            if ts.contains(t) {
                let k = choose|k: int| 0 <= k < ts.len() && ts[k] == t;
                if k < ts.len() - 1 {
                    assert(d[k] == t);
                }
            }
            if d.contains(t) {
                let k = choose|k: int| 0 <= k < d.len() && d[k] == t;
                assert(ts[k] == t);
            }
        }
        if ts.last() == t {
            assert(!d.contains(t)) by {
                if d.contains(t) {
                    let k = choose|k: int| 0 <= k < d.len() && d[k] == t;
                    assert(ts[k] == ts[ts.len() - 1]);
                }
            }
        }
    }
}

proof fn lemma_decremented(table: Map<Seq<char>, int>, ts: Seq<Seq<char>>, t: Seq<char>)
    requires
        ts.no_duplicates(),
    ensures
        count_in(decremented(table, ts), t) == count_in(table, t) - if ts.contains(t)
            && table.contains_key(t) {
            1int
        } else {
            0int
        },
        decremented(table, ts).contains_key(t) <==> table.contains_key(t),
    decreases ts.len(),
{
    if ts.len() > 0 {
        let d = ts.drop_last();
        assert(d.no_duplicates()) by {
            assert forall|i: int, j: int| 0 <= i < d.len() && 0 <= j < d.len() && i != j implies d[i]
                != d[j] by {
                assert(d[i] == ts[i] && d[j] == ts[j]);
            }
        }
        lemma_decremented(table, d, t);
        lemma_decremented(table, d, ts.last());
        assert(ts.contains(t) <==> (d.contains(t) || ts.last() == t)) by {
            if ts.contains(t) {
                let k = choose|k: int| 0 <= k < ts.len() && ts[k] == t;
                if k < ts.len() - 1 {
                    assert(d[k] == t);
                }
            }
            if d.contains(t) {
                let k = choose|k: int| 0 <= k < d.len() && d[k] == t;
                assert(ts[k] == t);
            }
        }
        if ts.last() == t {
            assert(!d.contains(t)) by {
                if d.contains(t) {
                    let k = choose|k: int| 0 <= k < d.len() && d[k] == t;
                    assert(ts[k] == ts[ts.len() - 1]);
                }
            }
        }
    }
}

/// Law: the tag table stays the one the contents stand for. A table that holds one row per
/// carried tag with the number of memos carrying it, after the statements of an edit of
/// memo `i` to `new` (the tags `tag_changes` reports added, then those removed, then the
/// pruning), holds exactly that again for the edited contents.
pub proof fn law_table_after_edit(cs: Seq<Seq<char>>, i: int, new: Seq<char>)
    requires
        0 <= i < cs.len(),
    ensures
        after_edit(table_of(cs), added_tags(cs[i], new), removed_tags(cs[i], new)) == table_of(
            cs.update(i, new),
        ),
{
    let old = cs[i];
    let a = added_tags(old, new);
    let r = removed_tags(old, new);
    crate::markdown::law_tags_well_formed(old);
    crate::markdown::law_tags_well_formed(new);
    lemma_filter_no_duplicates(tags_of(new), |x: Seq<char>| !tags_of(old).contains(x));
    lemma_filter_no_duplicates(tags_of(old), |x: Seq<char>| !tags_of(new).contains(x));
    let t0 = table_of(cs);
    let up = incremented(t0, a);
    let down = decremented(up, r);
    let goal = table_of(cs.update(i, new));
    assert forall|t: Seq<char>| #[trigger] after_edit(t0, a, r).contains_key(t) <==> goal.contains_key(
        t,
    ) by {
        lemma_incremented(t0, a, t);
        lemma_decremented(up, r, t);
        law_edit_counts(cs, i, new, t);
        law_remove_counts(cs, i, t);
        if r.contains(t) {
            tags_of(old).lemma_filter_contains_rev(|x: Seq<char>| !tags_of(new).contains(x), t);
        }
        if a.contains(t) {
            tags_of(new).lemma_filter_contains_rev(|x: Seq<char>| !tags_of(old).contains(x), t);
        }
        if r.len() == 0 && t0.contains_key(t) {
            assert(!r.contains(t));
        }
    }
    assert forall|t: Seq<char>| #[trigger] after_edit(t0, a, r).contains_key(t) implies after_edit(
        t0,
        a,
        r,
    )[t] == goal[t] by {
        lemma_incremented(t0, a, t);
        lemma_decremented(up, r, t);
        law_edit_counts(cs, i, new, t);
        law_remove_counts(cs, i, t);
        if r.contains(t) {
            tags_of(old).lemma_filter_contains_rev(|x: Seq<char>| !tags_of(new).contains(x), t);
        }
    }
    assert(after_edit(t0, a, r) =~= goal);
}


/// A tag among the tag names is carried by some content.
proof fn lemma_named_is_carried(cs: Seq<Seq<char>>, t: Seq<char>)
    ensures
        tag_names(cs).contains(t) ==> carrying(cs, t) > 0,
    decreases cs.len(),
{
    if cs.len() > 0 {
        lemma_named_is_carried(cs.drop_last(), t);
        lemma_carried_is_named(cs.drop_last(), t);
        crate::markdown::lemma_remove_duplicates_no_dup(tags_of(cs.last()), tag_names(cs.drop_last()));
    }
}

/// The table a rebuild writes: one row per name, with the number of contents carrying it
/// (the names and counts `tag_counts` gives, inserted by `tag_insert_queries`).
pub open spec fn rows_table(names: Seq<Seq<char>>, cs: Seq<Seq<char>>) -> Map<Seq<char>, int> {
    Map::new(|t: Seq<char>| names.contains(t), |t: Seq<char>| carrying(cs, t) as int)
}

/// Law: the rows a rebuild writes are exactly the table the contents stand for, one row per
/// distinct tag, so the number of rows it reports is the number of distinct tags; they depend
/// on the contents alone, so rebuilding again over the same contents writes the same table
/// and reports the same number, and it is the table an edit keeps (`law_table_after_edit`).
pub proof fn law_rebuild_table(cs: Seq<Seq<char>>)
    ensures
        rows_table(tag_names(cs), cs) == table_of(cs),
        tag_names(cs).no_duplicates(),
        table_of(cs).dom() == tag_names(cs).to_set(),
        table_of(cs).dom().len() == tag_names(cs).len(),
{
    lemma_carried_is_named(cs, seq![]);
    tag_names(cs).unique_seq_to_set();
    assert forall|t: Seq<char>| #[trigger] rows_table(tag_names(cs), cs).contains_key(t)
        <==> table_of(cs).contains_key(t) by {
        lemma_named_is_carried(cs, t);
        lemma_carried_is_named(cs, t);
    }
    assert(rows_table(tag_names(cs), cs) =~= table_of(cs));
    assert(table_of(cs).dom() =~= tag_names(cs).to_set());
}


/// Every row of the table counts at least one memo.
pub open spec fn counts_positive(table: Map<Seq<char>, int>) -> bool {
    forall|t: Seq<char>| #[trigger] table.contains_key(t) ==> table[t] >= 1
}

/// Law: for any table whose rows count at least one memo, the statements of an edit that
/// adds the tags `added_tags(old, new)` and removes `removed_tags(old, new)` leave each tag
/// with its count plus one when added, minus one when removed; a row that reaches 0 is
/// dropped, a tag without a row that is removed stays without one, every other row is
/// untouched, and an edit that changes no tag leaves the table as it was.
pub proof fn law_sync_any_table(table: Map<Seq<char>, int>, old: Seq<char>, new: Seq<char>)
    requires
        counts_positive(table),
    ensures
        forall|t: Seq<char>| {
            let c = count_in(table, t) + (if added_tags(old, new).contains(t) {
                1int
            } else {
                0int
            }) - (if removed_tags(old, new).contains(t) && table.contains_key(t) {
                1int
            } else {
                0int
            });
            &&& #[trigger] after_edit(table, added_tags(old, new), removed_tags(old, new)).contains_key(t)
                <==> c > 0
            &&& count_in(after_edit(table, added_tags(old, new), removed_tags(old, new)), t) == if c
                > 0 {
                c
            } else {
                0
            }
        },
        counts_positive(after_edit(table, added_tags(old, new), removed_tags(old, new))),
        added_tags(old, new).len() == 0 && removed_tags(old, new).len() == 0 ==> after_edit(
            table,
            added_tags(old, new),
            removed_tags(old, new),
        ) == table,
{
    let a = added_tags(old, new);
    let r = removed_tags(old, new);
    crate::markdown::law_tags_well_formed(old);
    crate::markdown::law_tags_well_formed(new);
    lemma_filter_no_duplicates(tags_of(new), |x: Seq<char>| !tags_of(old).contains(x));
    lemma_filter_no_duplicates(tags_of(old), |x: Seq<char>| !tags_of(new).contains(x));
    let up = incremented(table, a);
    let res = after_edit(table, a, r);
    assert forall|t: Seq<char>| {
        let c = count_in(table, t) + (if a.contains(t) {
            1int
        } else {
            0int
        }) - (if r.contains(t) && table.contains_key(t) {
            1int
        } else {
            0int
        });
        &&& #[trigger] res.contains_key(t) <==> c > 0
        &&& count_in(res, t) == if c > 0 {
            c
        } else {
            0
        }
    } by {
        lemma_incremented(table, a, t);
        lemma_decremented(up, r, t);
        if r.contains(t) {
            tags_of(old).lemma_filter_contains_rev(|x: Seq<char>| !tags_of(new).contains(x), t);
            if a.contains(t) {
                tags_of(new).lemma_filter_contains_rev(|x: Seq<char>| !tags_of(old).contains(x), t);
            }
        }
        if table.contains_key(t) {
            assert(table[t] >= 1);
        }
    }
    assert forall|t: Seq<char>| #[trigger] res.contains_key(t) implies res[t] >= 1 by {
        lemma_incremented(table, a, t);
        lemma_decremented(up, r, t);
        if table.contains_key(t) {
            assert(table[t] >= 1);
        }
    }
    if a.len() == 0 && r.len() == 0 {
        assert(incremented(table, a) == table);
    }
}

} // verus!
