//! The statements that keep review decks and cards, and how a stored deck is read back.
//!
//! A deck's tags are stored as the JSON text of a list of strings.
use crate::error::CoreError;
use crate::markdown::string_views;
use crate::review::ReviewDeck;
use crate::sql::{arg_views, statement, SqlArg, SqlQuery, SqlValue};
use crate::text::{chars_of, push_signed_decimal, string_from_chars};
use vstd::prelude::*;

verus! {

/// The JSON text `serde_json::to_string` writes for a list of strings.
pub uninterp spec fn json_of_strings(v: Seq<Seq<char>>) -> Seq<char>;

/// The strings `serde_json::from_str` reads from a text as a list of strings, or none when
/// the text is not such a list.
pub uninterp spec fn strings_of_json(s: Seq<char>) -> Option<Seq<Seq<char>>>;

/// Writes a list of strings as JSON with `serde_json::to_string`; claimed: it succeeds (its
/// documentation says it fails only when a `Serialize` impl fails or a map has keys that are
/// not strings, neither of which a list of strings has) and the text is `json_of_strings` of
/// the strings.
#[verifier::external_body]
fn strings_to_json(v: &Vec<String>) -> (r: Result<String, String>)
    ensures
        r is Ok,
        r matches Ok(t) ==> t@ == json_of_strings(string_views(v@)),
{
    match serde_json::to_string(v) {
        Ok(t) => Ok(t),
        Err(e) => Err(e.to_string()),
    }
}

/// Reads a list of strings from JSON with `serde_json::from_str`; claimed: the strings are
/// `strings_of_json` of the text, and none comes exactly when that is none.
#[verifier::external_body]
fn strings_from_json(s: &str) -> (r: Option<Vec<String>>)
    ensures
        r matches Some(v) ==> strings_of_json(s@) == Some(string_views(v@)),
        r is None ==> strings_of_json(s@) is None,
{
    match serde_json::from_str::<Vec<String>>(s) {
        Ok(v) => Some(v),
        Err(_) => None,
    }
}

/// The columns a deck is read with, in the order `deck_from_row` takes them.
pub const DECK_COLUMNS: &'static str =
    "SELECT id, name, tags, cards_per_memo, created_ts, last_reviewed_ts, memo_count\n         FROM review_deck";

/// The columns a card is read with.
pub const CARD_COLUMNS: &'static str =
    "SELECT id, deck_id, memo_uid, card_type, front, back, cloze_answer, angle,\n                stability, difficulty, due, last_review, reps, lapses, state, created_ts, memo_deleted\n         FROM review_card";

/// The tags a stored JSON text stands for: none when it is not a list of strings.
pub open spec fn stored_tags(s: Seq<char>) -> Seq<Seq<char>> {
    match strings_of_json(s) {
        Some(v) => v,
        None => seq![],
    }
}

/// The statement that creates a deck; its tags are stored as JSON. It is always made.
pub fn create_deck_query(name: &str, tags: &Vec<String>, cards_per_memo: i32) -> (r: Result<
    SqlQuery,
    CoreError,
>)
    ensures
        r matches Ok(q) ==> q.sql@ == "INSERT INTO review_deck (name, tags, cards_per_memo) VALUES (?1, ?2, ?3)"@
            && arg_views(q.args@) == seq![
            SqlArg::Text(name@),
            SqlArg::Text(json_of_strings(string_views(tags@))),
            SqlArg::Integer(cards_per_memo as int),
        ],
        r is Ok,
{
    match strings_to_json(tags) {
        Ok(json) => {
            let ghost jv = json@;
            let args = vec![
                SqlValue::Text(String::from_str(name)),
                SqlValue::Text(json),
                SqlValue::Integer(cards_per_memo as i64),
            ];
            let q = statement(
                "INSERT INTO review_deck (name, tags, cards_per_memo) VALUES (?1, ?2, ?3)",
                args,
            );
            assert(arg_views(q.args@) =~= seq![
                SqlArg::Text(name@),
                SqlArg::Text(jv),
                SqlArg::Integer(cards_per_memo as int),
            ]);
            Ok(q)
        },
        Err(m) => Err(CoreError::Serde(m)),
    }
}

/// The statement that reads one deck.
pub fn get_deck_query(id: i32) -> (q: SqlQuery)
    ensures
        q.sql@ == DECK_COLUMNS@ + " WHERE id = ?1"@,
        arg_views(q.args@) == seq![SqlArg::Integer(id as int)],
{
    let q = statement(
        "SELECT id, name, tags, cards_per_memo, created_ts, last_reviewed_ts, memo_count\n         FROM review_deck WHERE id = ?1",
        vec![SqlValue::Integer(id as i64)],
    );
    proof {
        reveal_strlit(
            "SELECT id, name, tags, cards_per_memo, created_ts, last_reviewed_ts, memo_count\n         FROM review_deck WHERE id = ?1",
        );
        reveal_strlit(
            "SELECT id, name, tags, cards_per_memo, created_ts, last_reviewed_ts, memo_count\n         FROM review_deck",
        );
        reveal_strlit(" WHERE id = ?1");
    }
    assert(q.sql@ =~= DECK_COLUMNS@ + " WHERE id = ?1"@);
    assert(arg_views(q.args@) =~= seq![SqlArg::Integer(id as int)]);
    q
}

/// The statement that lists every deck, newest first.
pub fn list_decks_query() -> (q: SqlQuery)
    ensures
        q.sql@ == DECK_COLUMNS@ + " ORDER BY created_ts DESC"@,
        q.args@.len() == 0,
{
    let q = statement(
        "SELECT id, name, tags, cards_per_memo, created_ts, last_reviewed_ts, memo_count\n         FROM review_deck ORDER BY created_ts DESC",
        Vec::new(),
    );
    proof {
        reveal_strlit(
            "SELECT id, name, tags, cards_per_memo, created_ts, last_reviewed_ts, memo_count\n         FROM review_deck ORDER BY created_ts DESC",
        );
        reveal_strlit(
            "SELECT id, name, tags, cards_per_memo, created_ts, last_reviewed_ts, memo_count\n         FROM review_deck",
        );
        reveal_strlit(" ORDER BY created_ts DESC");
    }
    assert(q.sql@ =~= DECK_COLUMNS@ + " ORDER BY created_ts DESC"@);
    q
}

/// A deck from the columns of `DECK_COLUMNS`; tags that are not a JSON list of strings
/// read as none.
pub fn deck_from_row(
    id: i32,
    name: String,
    tags_json: &str,
    cards_per_memo: i32,
    created_ts: i64,
    last_reviewed_ts: Option<i64>,
    memo_count: i32,
) -> (d: ReviewDeck)
    ensures
        d.id == id,
        d.name == name,
        string_views(d.tags@) == stored_tags(tags_json@),
        d.cards_per_memo == cards_per_memo,
        d.created_ts == created_ts,
        d.last_reviewed_ts == last_reviewed_ts,
        d.memo_count == memo_count,
{
    let tags = match strings_from_json(tags_json) {
        Some(v) => v,
        None => {
            let v: Vec<String> = Vec::new();
            assert(string_views(v@) =~= Seq::<Seq<char>>::empty());
            v
        },
    };
    ReviewDeck { id, name, tags, cards_per_memo, created_ts, last_reviewed_ts, memo_count }
}

/// The statement that changes a deck's name, tags and cards per memo. It is always made.
pub fn update_deck_query(id: i32, name: &str, tags: &Vec<String>, cards_per_memo: i32) -> (r:
    Result<SqlQuery, CoreError>)
    ensures
        r matches Ok(q) ==> q.sql@
            == "UPDATE review_deck SET name = ?1, tags = ?2, cards_per_memo = ?3 WHERE id = ?4"@
            && arg_views(q.args@) == seq![
            SqlArg::Text(name@),
            SqlArg::Text(json_of_strings(string_views(tags@))),
            SqlArg::Integer(cards_per_memo as int),
            SqlArg::Integer(id as int),
        ],
        r is Ok,
{
    match strings_to_json(tags) {
        Ok(json) => {
            let ghost jv = json@;
            let args = vec![
                SqlValue::Text(String::from_str(name)),
                SqlValue::Text(json),
                SqlValue::Integer(cards_per_memo as i64),
                SqlValue::Integer(id as i64),
            ];
            let q = statement(
                "UPDATE review_deck SET name = ?1, tags = ?2, cards_per_memo = ?3 WHERE id = ?4",
                args,
            );
            assert(arg_views(q.args@) =~= seq![
                SqlArg::Text(name@),
                SqlArg::Text(jv),
                SqlArg::Integer(cards_per_memo as int),
                SqlArg::Integer(id as int),
            ]);
            Ok(q)
        },
        Err(m) => Err(CoreError::Serde(m)),
    }
}

/// The error for a deck that does not exist: `deck id={id}`.
pub fn deck_missing(id: i32) -> (e: CoreError)
    ensures
        e matches CoreError::NotFound(m) && m@ == "deck id="@ + crate::text::signed_decimal(
            id as int,
        ),
{
    let mut v = chars_of("deck id=");
    push_signed_decimal(&mut v, id as i64);
    CoreError::NotFound(string_from_chars(v.as_slice()))
}

/// An update that changed no row means the deck does not exist.
pub fn deck_update_outcome(affected: usize, id: i32) -> (r: Result<(), CoreError>)
    ensures
        affected > 0 <==> r is Ok,
        r matches Err(e) ==> (e matches CoreError::NotFound(m) && m@ == "deck id="@
            + crate::text::signed_decimal(id as int)),
{
    if affected == 0 {
        Err(deck_missing(id))
    } else {
        Ok(())
    }
}

/// The statement that lists the ids of a deck's cards.
pub fn deck_card_ids_query(deck_id: i32) -> (q: SqlQuery)
    ensures
        q.sql@ == "SELECT id FROM review_card WHERE deck_id = ?1"@,
        arg_views(q.args@) == seq![SqlArg::Integer(deck_id as int)],
{
    let q = statement("SELECT id FROM review_card WHERE deck_id = ?1", vec![SqlValue::Integer(deck_id as i64)]);
    assert(arg_views(q.args@) =~= seq![SqlArg::Integer(deck_id as int)]);
    q
}

/// The statement text that deletes one card's review records.
pub open spec fn delete_records_sql() -> Seq<char> {
    "DELETE FROM review_record WHERE card_id = ?1"@
}

/// The statements that delete a deck with its cards: the review records of each card in
/// turn, then the cards, then the deck.
pub fn delete_deck_queries(id: i32, card_ids: &Vec<i32>) -> (r: Vec<SqlQuery>)
    ensures
        r@.len() == card_ids@.len() + 2,
        forall|k: int|
            0 <= k < card_ids@.len() ==> (#[trigger] r@[k]).sql@ == delete_records_sql()
                && arg_views(r@[k].args@) == seq![SqlArg::Integer(card_ids@[k] as int)],
        r@[card_ids@.len() as int].sql@ == "DELETE FROM review_card WHERE deck_id = ?1"@,
        arg_views(r@[card_ids@.len() as int].args@) == seq![SqlArg::Integer(id as int)],
        r@[card_ids@.len() + 1int].sql@ == "DELETE FROM review_deck WHERE id = ?1"@,
        arg_views(r@[card_ids@.len() + 1int].args@) == seq![SqlArg::Integer(id as int)],
{
    let mut out: Vec<SqlQuery> = Vec::new();
    let mut k: usize = 0;
    while k < card_ids.len()
        invariant
            k <= card_ids.len(),
            out@.len() == k,
            forall|j: int|
                0 <= j < k ==> (#[trigger] out@[j]).sql@ == delete_records_sql() && arg_views(
                    out@[j].args@,
                ) == seq![SqlArg::Integer(card_ids@[j] as int)],
        decreases card_ids.len() - k,
    {
        let q = statement(
            "DELETE FROM review_record WHERE card_id = ?1",
            vec![SqlValue::Integer(card_ids[k] as i64)],
        );
        assert(arg_views(q.args@) =~= seq![SqlArg::Integer(card_ids@[k as int] as int)]);
        out.push(q);
        k = k + 1;
    }
    let cards = statement("DELETE FROM review_card WHERE deck_id = ?1", vec![SqlValue::Integer(id as i64)]);
    assert(arg_views(cards.args@) =~= seq![SqlArg::Integer(id as int)]);
    out.push(cards);
    let deck = statement("DELETE FROM review_deck WHERE id = ?1", vec![SqlValue::Integer(id as i64)]);
    assert(arg_views(deck.args@) =~= seq![SqlArg::Integer(id as int)]);
    out.push(deck);
    out
}

/// The statement that reads one card.
pub fn get_card_query(id: i32) -> (q: SqlQuery)
    ensures
        q.sql@ == CARD_COLUMNS@ + " WHERE id = ?1"@,
        arg_views(q.args@) == seq![SqlArg::Integer(id as int)],
{
    let q = statement(
        "SELECT id, deck_id, memo_uid, card_type, front, back, cloze_answer, angle,\n                stability, difficulty, due, last_review, reps, lapses, state, created_ts, memo_deleted\n         FROM review_card WHERE id = ?1",
        vec![SqlValue::Integer(id as i64)],
    );
    proof {
        reveal_strlit("SELECT id, deck_id, memo_uid, card_type, front, back, cloze_answer, angle,\n                stability, difficulty, due, last_review, reps, lapses, state, created_ts, memo_deleted\n         FROM review_card WHERE id = ?1");
        reveal_strlit("SELECT id, deck_id, memo_uid, card_type, front, back, cloze_answer, angle,\n                stability, difficulty, due, last_review, reps, lapses, state, created_ts, memo_deleted\n         FROM review_card");
        reveal_strlit(" WHERE id = ?1");
    }
    assert(q.sql@ =~= CARD_COLUMNS@ + " WHERE id = ?1"@);
    assert(arg_views(q.args@) =~= seq![SqlArg::Integer(id as int)]);
    q
}

/// The statement that lists a deck's cards, newest first.
pub fn list_cards_query(deck_id: i32) -> (q: SqlQuery)
    ensures
        q.sql@ == CARD_COLUMNS@ + " WHERE deck_id = ?1 ORDER BY created_ts DESC"@,
        arg_views(q.args@) == seq![SqlArg::Integer(deck_id as int)],
{
    let q = statement(
        "SELECT id, deck_id, memo_uid, card_type, front, back, cloze_answer, angle,\n                stability, difficulty, due, last_review, reps, lapses, state, created_ts, memo_deleted\n         FROM review_card WHERE deck_id = ?1 ORDER BY created_ts DESC",
        vec![SqlValue::Integer(deck_id as i64)],
    );
    proof {
        reveal_strlit("SELECT id, deck_id, memo_uid, card_type, front, back, cloze_answer, angle,\n                stability, difficulty, due, last_review, reps, lapses, state, created_ts, memo_deleted\n         FROM review_card WHERE deck_id = ?1 ORDER BY created_ts DESC");
        reveal_strlit("SELECT id, deck_id, memo_uid, card_type, front, back, cloze_answer, angle,\n                stability, difficulty, due, last_review, reps, lapses, state, created_ts, memo_deleted\n         FROM review_card");
        reveal_strlit(" WHERE deck_id = ?1 ORDER BY created_ts DESC");
    }
    assert(q.sql@ =~= CARD_COLUMNS@ + " WHERE deck_id = ?1 ORDER BY created_ts DESC"@);
    assert(arg_views(q.args@) =~= seq![SqlArg::Integer(deck_id as int)]);
    q
}

/// The statement that lists a deck's cards due at `now` whose memo still exists, earliest
/// first, at most `limit` of them.
pub fn list_due_cards_query(deck_id: i32, now: i64, limit: i32) -> (q: SqlQuery)
    ensures
        q.sql@ == CARD_COLUMNS@ + "\n         WHERE deck_id = ?1 AND due <= ?2 AND memo_deleted = 0\n         ORDER BY due ASC LIMIT ?3"@,
        arg_views(q.args@) == seq![SqlArg::Integer(deck_id as int), SqlArg::Integer(now as int), SqlArg::Integer(limit as int)],
{
    let q = statement(
        "SELECT id, deck_id, memo_uid, card_type, front, back, cloze_answer, angle,\n                stability, difficulty, due, last_review, reps, lapses, state, created_ts, memo_deleted\n         FROM review_card\n         WHERE deck_id = ?1 AND due <= ?2 AND memo_deleted = 0\n         ORDER BY due ASC LIMIT ?3",
        vec![SqlValue::Integer(deck_id as i64), SqlValue::Integer(now), SqlValue::Integer(limit as i64)],
    );
    proof {
        reveal_strlit("SELECT id, deck_id, memo_uid, card_type, front, back, cloze_answer, angle,\n                stability, difficulty, due, last_review, reps, lapses, state, created_ts, memo_deleted\n         FROM review_card\n         WHERE deck_id = ?1 AND due <= ?2 AND memo_deleted = 0\n         ORDER BY due ASC LIMIT ?3");
        reveal_strlit("SELECT id, deck_id, memo_uid, card_type, front, back, cloze_answer, angle,\n                stability, difficulty, due, last_review, reps, lapses, state, created_ts, memo_deleted\n         FROM review_card");
        reveal_strlit("\n         WHERE deck_id = ?1 AND due <= ?2 AND memo_deleted = 0\n         ORDER BY due ASC LIMIT ?3");
    }
    assert(q.sql@ =~= CARD_COLUMNS@ + "\n         WHERE deck_id = ?1 AND due <= ?2 AND memo_deleted = 0\n         ORDER BY due ASC LIMIT ?3"@);
    assert(arg_views(q.args@) =~= seq![SqlArg::Integer(deck_id as int), SqlArg::Integer(now as int), SqlArg::Integer(limit as int)]);
    q
}

/// The statement that marks the cards of a deleted memo.
pub fn mark_memo_deleted_query(memo_uid: &str) -> (q: SqlQuery)
    ensures
        q.sql@ == "UPDATE review_card SET memo_deleted = 1 WHERE memo_uid = ?1"@,
        arg_views(q.args@) == seq![SqlArg::Text(memo_uid@)],
{
    let q = statement("UPDATE review_card SET memo_deleted = 1 WHERE memo_uid = ?1", vec![SqlValue::Text(String::from_str(memo_uid))]);
    assert(arg_views(q.args@) =~= seq![SqlArg::Text(memo_uid@)]);
    q
}

/// The statement that records that a deck was reviewed at `now`.
pub fn touch_deck_query(deck_id: i32, now: i64) -> (q: SqlQuery)
    ensures
        q.sql@ == "UPDATE review_deck SET last_reviewed_ts = ?1 WHERE id = ?2"@,
        arg_views(q.args@) == seq![SqlArg::Integer(now as int), SqlArg::Integer(deck_id as int)],
{
    let q = statement("UPDATE review_deck SET last_reviewed_ts = ?1 WHERE id = ?2", vec![SqlValue::Integer(now), SqlValue::Integer(deck_id as i64)]);
    assert(arg_views(q.args@) =~= seq![SqlArg::Integer(now as int), SqlArg::Integer(deck_id as int)]);
    q
}

/// The statement that counts the cards of every deck due at `now` whose memo still exists.
pub fn total_due_query(now: i64) -> (q: SqlQuery)
    ensures
        q.sql@ == "SELECT COUNT(*) FROM review_card WHERE due <= ?1 AND memo_deleted = 0"@,
        arg_views(q.args@) == seq![SqlArg::Integer(now as int)],
{
    let q = statement("SELECT COUNT(*) FROM review_card WHERE due <= ?1 AND memo_deleted = 0", vec![SqlValue::Integer(now)]);
    assert(arg_views(q.args@) =~= seq![SqlArg::Integer(now as int)]);
    q
}

/// The statement that counts a deck's cards whose memo still exists.
pub fn deck_total_query(deck_id: i32) -> (q: SqlQuery)
    ensures
        q.sql@ == "SELECT COUNT(*) FROM review_card WHERE deck_id = ?1 AND memo_deleted = 0"@,
        arg_views(q.args@) == seq![SqlArg::Integer(deck_id as int)],
{
    let q = statement("SELECT COUNT(*) FROM review_card WHERE deck_id = ?1 AND memo_deleted = 0", vec![SqlValue::Integer(deck_id as i64)]);
    assert(arg_views(q.args@) =~= seq![SqlArg::Integer(deck_id as int)]);
    q
}

/// The statement that counts a deck's cards due at `now` whose memo still exists.
pub fn deck_due_query(deck_id: i32, now: i64) -> (q: SqlQuery)
    ensures
        q.sql@ == "SELECT COUNT(*) FROM review_card WHERE deck_id = ?1 AND due <= ?2 AND memo_deleted = 0"@,
        arg_views(q.args@) == seq![SqlArg::Integer(deck_id as int), SqlArg::Integer(now as int)],
{
    let q = statement("SELECT COUNT(*) FROM review_card WHERE deck_id = ?1 AND due <= ?2 AND memo_deleted = 0", vec![SqlValue::Integer(deck_id as i64), SqlValue::Integer(now)]);
    assert(arg_views(q.args@) =~= seq![SqlArg::Integer(deck_id as int), SqlArg::Integer(now as int)]);
    q
}

/// The statement that counts a deck's new cards whose memo still exists.
pub fn deck_new_query(deck_id: i32) -> (q: SqlQuery)
    ensures
        q.sql@ == "SELECT COUNT(*) FROM review_card WHERE deck_id = ?1 AND state = 0 AND memo_deleted = 0"@,
        arg_views(q.args@) == seq![SqlArg::Integer(deck_id as int)],
{
    let q = statement("SELECT COUNT(*) FROM review_card WHERE deck_id = ?1 AND state = 0 AND memo_deleted = 0", vec![SqlValue::Integer(deck_id as i64)]);
    assert(arg_views(q.args@) =~= seq![SqlArg::Integer(deck_id as int)]);
    q
}

/// The statement that counts a deck's reviewed cards whose memo still exists.
pub fn deck_learned_query(deck_id: i32) -> (q: SqlQuery)
    ensures
        q.sql@ == "SELECT COUNT(*) FROM review_card WHERE deck_id = ?1 AND reps > 0 AND memo_deleted = 0"@,
        arg_views(q.args@) == seq![SqlArg::Integer(deck_id as int)],
{
    let q = statement("SELECT COUNT(*) FROM review_card WHERE deck_id = ?1 AND reps > 0 AND memo_deleted = 0", vec![SqlValue::Integer(deck_id as i64)]);
    assert(arg_views(q.args@) =~= seq![SqlArg::Integer(deck_id as int)]);
    q
}

/// The statement that reads when a deck was last reviewed.
pub fn deck_last_reviewed_query(deck_id: i32) -> (q: SqlQuery)
    ensures
        q.sql@ == "SELECT last_reviewed_ts FROM review_deck WHERE id = ?1"@,
        arg_views(q.args@) == seq![SqlArg::Integer(deck_id as int)],
{
    let q = statement("SELECT last_reviewed_ts FROM review_deck WHERE id = ?1", vec![SqlValue::Integer(deck_id as i64)]);
    assert(arg_views(q.args@) =~= seq![SqlArg::Integer(deck_id as int)]);
    q
}

/// The statements that delete a card: its review records, then the card.
pub fn delete_card_queries(id: i32) -> (r: Vec<SqlQuery>)
    ensures
        r@.len() == 2,
        r@[0].sql@ == delete_records_sql(),
        arg_views(r@[0].args@) == seq![SqlArg::Integer(id as int)],
        r@[1].sql@ == "DELETE FROM review_card WHERE id = ?1"@,
        arg_views(r@[1].args@) == seq![SqlArg::Integer(id as int)],
{
    let records = statement("DELETE FROM review_record WHERE card_id = ?1", vec![SqlValue::Integer(id as i64)]);
    assert(arg_views(records.args@) =~= seq![SqlArg::Integer(id as int)]);
    let card = statement("DELETE FROM review_card WHERE id = ?1", vec![SqlValue::Integer(id as i64)]);
    assert(arg_views(card.args@) =~= seq![SqlArg::Integer(id as int)]);
    vec![records, card]
}

/// The statement that lists the time of every review, oldest first.
pub fn review_timestamps_query() -> (q: SqlQuery)
    ensures
        q.sql@ == "SELECT reviewed_ts FROM review_record ORDER BY reviewed_ts ASC"@,
        q.args@.len() == 0,
{
    statement("SELECT reviewed_ts FROM review_record ORDER BY reviewed_ts ASC", Vec::new())
}

/// The error for a deck that cannot be read back right after it was created.
pub fn created_deck_missing() -> (e: CoreError)
    ensures
        e matches CoreError::Other(m) && m@ == "刚创建的 deck 不存在"@,
{
    CoreError::Other(String::from_str("刚创建的 deck 不存在"))
}

} // verus!
