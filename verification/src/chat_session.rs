//! Chat sessions with the assistant and their messages.
use crate::error::CoreError;
use crate::sql::{arg_views, SqlArg, SqlBuilder, SqlQuery, SqlValue};
use crate::text::{chars_of, extend_chars, push_signed_decimal, signed_decimal, string_from_chars, sub_chars};
use vstd::prelude::*;

verus! {

/// Characters of the last message shown as a session preview.
pub const PREVIEW_CHARS: usize = 60;

/// A conversation.
#[derive(Debug, Clone)]
pub struct ChatSession {
    pub id: i64,
    pub title: String,
    pub provider_id: Option<String>,
    pub created_ts: i64,
    pub updated_ts: i64,
    /// Number of non-tool messages (filled by listing only).
    pub message_count: Option<i32>,
    /// Start of the last non-tool message (filled by listing only).
    pub preview: Option<String>,
}

/// One message; `content`, `tool_calls` and `tool_result` hold JSON text.
#[derive(Debug, Clone)]
pub struct ChatMessageRecord {
    pub id: i64,
    pub session_id: i64,
    pub seq: i32,
    pub role: String,
    pub content: String,
    pub tool_calls: Option<String>,
    pub tool_call_id: Option<String>,
    pub tool_result: Option<String>,
    pub is_error: bool,
    pub created_ts: i64,
}

pub open spec fn opt_text_arg(v: Option<String>) -> SqlArg {
    match v {
        Some(s) => SqlArg::Text(s@),
        None => SqlArg::Null,
    }
}

fn opt_text_value(v: &Option<String>) -> (r: SqlValue)
    ensures
        r@ == opt_text_arg(*v),
{
    match v {
        Some(s) => SqlValue::Text(s.clone()),
        None => SqlValue::Null,
    }
}

/// The insert statement of a message with sequence number `seq` at time `now`, and the
/// record it stores (its id comes from the database).
pub fn build_append_message(
    session_id: i64,
    seq: i32,
    role: String,
    content: String,
    tool_calls: Option<String>,
    tool_call_id: Option<String>,
    tool_result: Option<String>,
    is_error: bool,
    now: i64,
) -> (r: (SqlQuery, ChatMessageRecord))
    ensures
        r.0.sql@
            == "INSERT INTO chat_message (session_id, seq, role, content, tool_calls, tool_call_id, tool_result, is_error, created_ts) VALUES (?1, ?2, ?3, ?4, ?5, ?6, ?7, ?8, ?9)"@,
        arg_views(r.0.args@) == seq![
            SqlArg::Integer(session_id as int),
            SqlArg::Integer(seq as int),
            SqlArg::Text(role@),
            SqlArg::Text(content@),
            opt_text_arg(tool_calls),
            opt_text_arg(tool_call_id),
            opt_text_arg(tool_result),
            SqlArg::Integer(if is_error { 1 } else { 0 }),
            SqlArg::Integer(now as int),
        ],
        r.1 == (ChatMessageRecord {
            id: 0,
            session_id,
            seq,
            role,
            content,
            tool_calls,
            tool_call_id,
            tool_result,
            is_error,
            created_ts: now,
        }),
{
    let mut b = SqlBuilder::new();
    b.push_str(
        "INSERT INTO chat_message (session_id, seq, role, content, tool_calls, tool_call_id, tool_result, is_error, created_ts) VALUES (?1, ?2, ?3, ?4, ?5, ?6, ?7, ?8, ?9)",
    );
    b.bind(SqlValue::Integer(session_id));
    b.bind(SqlValue::Integer(seq as i64));
    b.bind(SqlValue::Text(role.clone()));
    b.bind(SqlValue::Text(content.clone()));
    b.bind(opt_text_value(&tool_calls));
    b.bind(opt_text_value(&tool_call_id));
    b.bind(opt_text_value(&tool_result));
    b.bind(SqlValue::Integer(if is_error { 1 } else { 0 }));
    b.bind(SqlValue::Integer(now));
    assert(arg_views(b.args@) =~= seq![
        SqlArg::Integer(session_id as int),
        SqlArg::Integer(seq as int),
        SqlArg::Text(role@),
        SqlArg::Text(content@),
        opt_text_arg(tool_calls),
        opt_text_arg(tool_call_id),
        opt_text_arg(tool_result),
        SqlArg::Integer(if is_error { 1 } else { 0 }),
        SqlArg::Integer(now as int),
    ]);
    (
        b.finish(),
        ChatMessageRecord {
            id: 0,
            session_id,
            seq,
            role,
            content,
            tool_calls,
            tool_call_id,
            tool_result,
            is_error,
            created_ts: now,
        },
    )
}


/// What the stored JSON content of a message holds, as far as a preview reads it.
#[derive(Debug, Clone)]
pub enum MessageContent {
    /// A JSON string.
    Text(String),
    /// A JSON array; for each element, its `text` field when that is a string.
    Parts(Vec<Option<String>>),
    /// Anything else, or text that is not JSON.
    Other,
}

/// The texts of the parts joined by spaces, skipping absent ones (an empty text adds no
/// space before the next).
pub open spec fn joined_parts(parts: Seq<Option<String>>) -> Seq<char>
    decreases parts.len(),
{
    if parts.len() == 0 {
        seq![]
    } else {
        let acc = joined_parts(parts.drop_last());
        match parts.last() {
            None => acc,
            Some(t) => if acc.len() == 0 {
                t@
            } else {
                acc + seq![' '] + t@
            },
        }
    }
}

/// The text a message shows in a preview: a string as it is, the joined texts of an array
/// when not empty, else nothing.
pub open spec fn preview_of(c: MessageContent) -> Option<Seq<char>> {
    match c {
        MessageContent::Text(s) => Some(s@),
        MessageContent::Parts(p) => if joined_parts(p@).len() > 0 {
            Some(joined_parts(p@))
        } else {
            None
        },
        MessageContent::Other => None,
    }
}

/// A preview cut to `PREVIEW_CHARS` characters, followed by `...` when longer.
pub open spec fn shortened(t: Seq<char>) -> Seq<char> {
    if t.len() > PREVIEW_CHARS {
        t.take(PREVIEW_CHARS as int) + "..."@
    } else {
        t
    }
}

/// The text of a message's content for a preview (see `preview_of`).
pub fn preview_text(c: &MessageContent) -> (r: Option<String>)
    ensures
        match preview_of(*c) {
            Some(t) => r matches Some(x) && x@ == t,
            None => r is None,
        },
{
    match c {
        MessageContent::Text(s) => Some(s.clone()),
        MessageContent::Parts(parts) => {
            let mut buf: Vec<char> = Vec::new();
            let mut k: usize = 0;
            while k < parts.len()
                invariant
                    k <= parts.len(),
                    buf@ == joined_parts(parts@.take(k as int)),
                decreases parts.len() - k,
            {
                proof {
                    assert(parts@.take(k + 1).drop_last() =~= parts@.take(k as int));
                    assert(parts@.take(k + 1).last() == parts@[k as int]);
                }
                match &parts[k] {
                    Some(t) => {
                        if buf.len() > 0 {
                            buf.push(' ');
                        }
                        let tc = chars_of(t.as_str());
                        extend_chars(&mut buf, tc.as_slice());
                    },
                    None => {},
                }
                k = k + 1;
            }
            assert(parts@.take(parts.len() as int) =~= parts@);
            if buf.len() > 0 {
                Some(string_from_chars(buf.as_slice()))
            } else {
                None
            }
        },
        MessageContent::Other => None,
    }
}

/// The preview of a session from the content of its last message: the text of
/// `preview_text`, shortened.
pub fn session_preview(c: &MessageContent) -> (r: Option<String>)
    ensures
        match preview_of(*c) {
            Some(t) => r matches Some(x) && x@ == shortened(t),
            None => r is None,
        },
{
    match preview_text(c) {
        None => None,
        Some(t) => {
            let tc = chars_of(t.as_str());
            if tc.len() > PREVIEW_CHARS {
                let mut head = sub_chars(tc.as_slice(), 0, PREVIEW_CHARS);
                let dots = chars_of("...");
                extend_chars(&mut head, dots.as_slice());
                assert(tc@.subrange(0, PREVIEW_CHARS as int) =~= tc@.take(PREVIEW_CHARS as int));
                Some(string_from_chars(head.as_slice()))
            } else {
                Some(t)
            }
        },
    }
}

/// The error for a session that does not exist: `session id={id}`.
pub fn session_not_found(id: i64) -> (e: CoreError)
    ensures
        e matches CoreError::NotFound(m) && m@ == "session id="@ + signed_decimal(id as int),
{
    let mut v = chars_of("session id=");
    push_signed_decimal(&mut v, id);
    CoreError::NotFound(string_from_chars(v.as_slice()))
}

/// The statement that creates a session at `now` (created and updated then).
pub fn create_session_query(title: &str, provider_id: Option<String>, now: i64) -> (q: SqlQuery)
    ensures
        q.sql@ == "INSERT INTO chat_session (title, provider_id, created_ts, updated_ts)\n         VALUES (?1, ?2, ?3, ?3)"@,
        arg_views(q.args@) == seq![
            SqlArg::Text(title@),
            opt_text_arg(provider_id),
            SqlArg::Integer(now as int),
        ],
{
    let p = opt_text_value(&provider_id);
    let q = crate::sql::statement(
        "INSERT INTO chat_session (title, provider_id, created_ts, updated_ts)\n         VALUES (?1, ?2, ?3, ?3)",
        vec![SqlValue::Text(String::from_str(title)), p, SqlValue::Integer(now)],
    );
    assert(arg_views(q.args@) =~= seq![
        SqlArg::Text(title@),
        opt_text_arg(provider_id),
        SqlArg::Integer(now as int),
    ]);
    q
}

/// The statement that reads one session (without count or preview).
pub fn get_session_query(id: i64) -> (q: SqlQuery)
    ensures
        q.sql@ == "SELECT id, title, provider_id, created_ts, updated_ts\n             FROM chat_session WHERE id = ?1"@,
        arg_views(q.args@) == seq![SqlArg::Integer(id as int)],
{
    let q = crate::sql::statement(
        "SELECT id, title, provider_id, created_ts, updated_ts\n             FROM chat_session WHERE id = ?1",
        vec![SqlValue::Integer(id)],
    );
    assert(arg_views(q.args@) =~= seq![SqlArg::Integer(id as int)]);
    q
}

/// The statement that lists every session, most recently updated first, with the number
/// of its non-tool messages and the content of its last message.
pub const LIST_SESSIONS_SQL: &'static str =
    "SELECT s.id, s.title, s.provider_id, s.created_ts, s.updated_ts,\n                (SELECT COUNT(*) FROM chat_message m\n                    WHERE m.session_id = s.id AND m.role != 'tool') AS msg_count,\n                (SELECT m.content FROM chat_message m\n                    WHERE m.session_id = s.id\n                    ORDER BY m.seq DESC LIMIT 1) AS last_content\n         FROM chat_session s\n         ORDER BY s.updated_ts DESC";

/// A listed session: its columns, its message count, and the preview of its last
/// message's content when that content could be read.
pub fn listed_session(
    id: i64,
    title: String,
    provider_id: Option<String>,
    created_ts: i64,
    updated_ts: i64,
    message_count: i32,
    last_content: Option<MessageContent>,
) -> (r: ChatSession)
    ensures
        r.id == id,
        r.title == title,
        r.provider_id == provider_id,
        r.created_ts == created_ts,
        r.updated_ts == updated_ts,
        r.message_count == Some(message_count),
        match last_content {
            Some(c) => match preview_of(c) {
                Some(t) => r.preview matches Some(x) && x@ == shortened(t),
                None => r.preview is None,
            },
            None => r.preview is None,
        },
{
    let preview = match &last_content {
        Some(c) => session_preview(c),
        None => None,
    };
    ChatSession {
        id,
        title,
        provider_id,
        created_ts,
        updated_ts,
        message_count: Some(message_count),
        preview,
    }
}

/// The statement that renames a session at `now`.
pub fn rename_session_query(id: i64, title: &str, now: i64) -> (q: SqlQuery)
    ensures
        q.sql@ == "UPDATE chat_session SET title = ?1, updated_ts = ?2 WHERE id = ?3"@,
        arg_views(q.args@) == seq![
            SqlArg::Text(title@),
            SqlArg::Integer(now as int),
            SqlArg::Integer(id as int),
        ],
{
    let q = crate::sql::statement(
        "UPDATE chat_session SET title = ?1, updated_ts = ?2 WHERE id = ?3",
        vec![SqlValue::Text(String::from_str(title)), SqlValue::Integer(now), SqlValue::Integer(id)],
    );
    assert(arg_views(q.args@) =~= seq![
        SqlArg::Text(title@),
        SqlArg::Integer(now as int),
        SqlArg::Integer(id as int),
    ]);
    q
}

/// A rename that changed no row means the session does not exist.
pub fn rename_outcome(affected: usize, id: i64) -> (r: Result<(), CoreError>)
    ensures
        affected > 0 <==> r is Ok,
        r matches Err(e) ==> (e matches CoreError::NotFound(m) && m@ == "session id="@
            + signed_decimal(id as int)),
{
    if affected == 0 {
        Err(session_not_found(id))
    } else {
        Ok(())
    }
}

/// The statement that deletes a session (its messages go with it).
pub fn delete_session_query(id: i64) -> (q: SqlQuery)
    ensures
        q.sql@ == "DELETE FROM chat_session WHERE id = ?1"@,
        arg_views(q.args@) == seq![SqlArg::Integer(id as int)],
{
    let q = crate::sql::statement("DELETE FROM chat_session WHERE id = ?1", vec![SqlValue::Integer(id)]);
    assert(arg_views(q.args@) =~= seq![SqlArg::Integer(id as int)]);
    q
}

/// The statement that marks a session as updated at `now`.
pub fn touch_session_query(id: i64, now: i64) -> (q: SqlQuery)
    ensures
        q.sql@ == "UPDATE chat_session SET updated_ts = ?1 WHERE id = ?2"@,
        arg_views(q.args@) == seq![SqlArg::Integer(now as int), SqlArg::Integer(id as int)],
{
    let q = crate::sql::statement(
        "UPDATE chat_session SET updated_ts = ?1 WHERE id = ?2",
        vec![SqlValue::Integer(now), SqlValue::Integer(id)],
    );
    assert(arg_views(q.args@) =~= seq![SqlArg::Integer(now as int), SqlArg::Integer(id as int)]);
    q
}

/// The statement that lists a session's messages in order.
pub fn list_messages_query(session_id: i64) -> (q: SqlQuery)
    ensures
        q.sql@ == "SELECT id, session_id, seq, role, content, tool_calls, tool_call_id, tool_result, is_error, created_ts\n         FROM chat_message\n         WHERE session_id = ?1\n         ORDER BY seq ASC"@,
        arg_views(q.args@) == seq![SqlArg::Integer(session_id as int)],
{
    let q = crate::sql::statement(
        "SELECT id, session_id, seq, role, content, tool_calls, tool_call_id, tool_result, is_error, created_ts\n         FROM chat_message\n         WHERE session_id = ?1\n         ORDER BY seq ASC",
        vec![SqlValue::Integer(session_id)],
    );
    assert(arg_views(q.args@) =~= seq![SqlArg::Integer(session_id as int)]);
    q
}

/// The statement that removes a session's messages (the session is then touched).
pub fn clear_messages_query(session_id: i64) -> (q: SqlQuery)
    ensures
        q.sql@ == "DELETE FROM chat_message WHERE session_id = ?1"@,
        arg_views(q.args@) == seq![SqlArg::Integer(session_id as int)],
{
    let q = crate::sql::statement(
        "DELETE FROM chat_message WHERE session_id = ?1",
        vec![SqlValue::Integer(session_id)],
    );
    assert(arg_views(q.args@) =~= seq![SqlArg::Integer(session_id as int)]);
    q
}

/// The statement that gives the sequence number of a session's next message: one more
/// than the largest so far, 1 for the first.
pub fn next_seq_query(session_id: i64) -> (q: SqlQuery)
    ensures
        q.sql@ == "SELECT COALESCE(MAX(seq), 0) + 1 FROM chat_message WHERE session_id = ?1"@,
        arg_views(q.args@) == seq![SqlArg::Integer(session_id as int)],
{
    let q = crate::sql::statement(
        "SELECT COALESCE(MAX(seq), 0) + 1 FROM chat_message WHERE session_id = ?1",
        vec![SqlValue::Integer(session_id)],
    );
    assert(arg_views(q.args@) =~= seq![SqlArg::Integer(session_id as int)]);
    q
}

/// The error for a session that cannot be read back right after it was created.
pub fn created_session_missing() -> (e: CoreError)
    ensures
        e matches CoreError::Other(m) && m@ == "刚创建的 session 不存在"@,
{
    CoreError::Other(String::from_str("刚创建的 session 不存在"))
}

} // verus!
