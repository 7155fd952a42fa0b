//! The chat assistant: the tools it may call, how their arguments become store queries, and
//! the decisions of its request / tool-call loop.
//!
//! A run sends the conversation to the model, reads the streamed answer, and when the
//! answer asks for tools, runs them, appends their results and asks again, for at most
//! `MAX_AGENT_ROUNDS` rounds.
use crate::error::CoreError;
use crate::file_storage::{replace_all, replace_chars};
use crate::llm_runner::split_words;
use crate::memo::{CreateMemo, FindMemo};
use crate::sse::ToolCallAccumulator;
use crate::text::{
    chars_of, extend_chars, hex, join_spaced, push_decimal, push_hex_padded, decimal, str_equals,
    string_from_chars, words, zero_pad,
};
use crate::types::{RowStatus, Visibility};
use vstd::prelude::*;

verus! {

/// Most rounds of requests in one run.
pub const MAX_AGENT_ROUNDS: u32 = 5;

/// The instructions the assistant is given before the conversation.
pub const SYSTEM_PROMPT: &'static str =
    "你是 LocalFragNote 的 AI 助手，帮助用户管理他们的笔记（memo）。\n你可以通过工具搜索、读取、创建 memo，以及列出标签。\n回答使用用户提问的语言。memo 内容是 Markdown 格式。\n创建 memo 前不需要确认，直接创建并告知用户。";

// ---------------------------------------------------------------------------
// Tool definitions
// ---------------------------------------------------------------------------

/// One parameter of a tool.
#[derive(Debug, Clone)]
pub struct ToolParam {
    pub name: String,
    /// JSON schema type: `string`, `number` or `array`.
    pub kind: String,
    /// Type of the items of an array parameter.
    pub items: Option<String>,
    pub description: String,
    pub required: bool,
}

/// A tool the assistant may call (OpenAI function-calling).
#[derive(Debug, Clone)]
pub struct ToolDef {
    pub name: String,
    pub description: String,
    pub params: Vec<ToolParam>,
}

fn param(name: &str, kind: &str, description: &str, required: bool) -> (p: ToolParam)
    ensures
        p.name@ == name@,
        p.kind@ == kind@,
        p.items is None,
        p.description@ == description@,
        p.required == required,
{
    ToolParam {
        name: String::from_str(name),
        kind: String::from_str(kind),
        items: None,
        description: String::from_str(description),
        required,
    }
}

fn tool(name: &str, description: &str, params: Vec<ToolParam>) -> (t: ToolDef)
    ensures
        t.name@ == name@,
        t.description@ == description@,
        t.params == params,
{
    ToolDef { name: String::from_str(name), description: String::from_str(description), params }
}

/// The names of the assistant's tools, in order.
pub open spec fn agent_tool_names() -> Seq<Seq<char>> {
    seq!["list_memos"@, "get_memo"@, "create_memo"@, "list_tags"@, "list_memos_by_tag"@]
}

/// A parameter with the given name, JSON type, item type, description and requiredness.
pub open spec fn param_is(
    p: ToolParam,
    name: Seq<char>,
    kind: Seq<char>,
    items: Option<Seq<char>>,
    description: Seq<char>,
    required: bool,
) -> bool {
    &&& p.name@ == name
    &&& p.kind@ == kind
    &&& match p.items {
        Some(t) => items == Some(t@),
        None => items is None,
    }
    &&& p.description@ == description
    &&& p.required == required
}

/// The tools offered to the model: `list_memos` (optional `query`, `limit`), `get_memo`
/// (`uid`), `create_memo` (`content`), `list_tags` and `list_memos_by_tag` (`tags`, an array
/// of strings, and optional `limit`), with their descriptions.
pub fn tool_definitions() -> (r: Vec<ToolDef>)
    ensures
        r.len() == 5,
        forall|k: int| 0 <= k < 5 ==> (#[trigger] r@[k]).name@ == agent_tool_names()[k],
        r@[0].description@ == "搜索用户的笔记。支持全文搜索（FTS）和列出最近的笔记。"@,
        r@[0].params.len() == 2,
        param_is(r@[0].params@[0], "query"@, "string"@, None, "全文搜索关键词，留空则返回最近笔记"@, false),
        param_is(r@[0].params@[1], "limit"@, "number"@, None, "返回数量，默认 10，最大 50"@, false),
        r@[1].description@ == "获取单条笔记的完整内容。"@,
        r@[1].params.len() == 1,
        param_is(r@[1].params@[0], "uid"@, "string"@, None, "笔记的唯一 ID"@, true),
        r@[2].description@ == "创建一条新笔记。"@,
        r@[2].params.len() == 1,
        param_is(r@[2].params@[0], "content"@, "string"@, None, "笔记内容，Markdown 格式"@, true),
        r@[3].description@ == "列出用户所有标签及其使用次数。"@,
        r@[3].params.len() == 0,
        r@[4].description@
            == "List memos that contain ALL specified tags. Returns memo content for card generation."@,
        r@[4].params.len() == 2,
        param_is(
            r@[4].params@[0],
            "tags"@,
            "array"@,
            Some("string"@),
            "Tags to filter (memo must contain ALL)"@,
            true,
        ),
        param_is(r@[4].params@[1], "limit"@, "number"@, None, "Max results, default 50"@, false),
{
    let mut defs: Vec<ToolDef> = Vec::new();
    let mut p0: Vec<ToolParam> = Vec::new();
    p0.push(param("query", "string", "全文搜索关键词，留空则返回最近笔记", false));
    p0.push(param("limit", "number", "返回数量，默认 10，最大 50", false));
    defs.push(tool("list_memos", "搜索用户的笔记。支持全文搜索（FTS）和列出最近的笔记。", p0));
    let mut p1: Vec<ToolParam> = Vec::new();
    p1.push(param("uid", "string", "笔记的唯一 ID", true));
    defs.push(tool("get_memo", "获取单条笔记的完整内容。", p1));
    let mut p2: Vec<ToolParam> = Vec::new();
    p2.push(param("content", "string", "笔记内容，Markdown 格式", true));
    defs.push(tool("create_memo", "创建一条新笔记。", p2));
    defs.push(tool("list_tags", "列出用户所有标签及其使用次数。", Vec::new()));
    let mut p4: Vec<ToolParam> = Vec::new();
    let mut tags = param("tags", "array", "Tags to filter (memo must contain ALL)", true);
    tags.items = Some(String::from_str("string"));
    p4.push(tags);
    p4.push(param("limit", "number", "Max results, default 50", false));
    defs.push(
        tool(
            "list_memos_by_tag",
            "List memos that contain ALL specified tags. Returns memo content for card generation.",
            p4,
        ),
    );
    proof {
        reveal_strlit("list_memos");
        reveal_strlit("get_memo");
        reveal_strlit("create_memo");
        reveal_strlit("list_tags");
        reveal_strlit("list_memos_by_tag");
    }
    defs
}

// ---------------------------------------------------------------------------
// Tool calls
// ---------------------------------------------------------------------------

/// A tool of the assistant.
#[derive(Debug, Clone, Copy, PartialEq, Eq)]
pub enum AgentTool {
    ListMemos,
    GetMemo,
    CreateMemo,
    ListTags,
    ListMemosByTag,
}

/// The tool with a given name; any other name is refused with `未知工具: ` and the name.
pub fn parse_agent_tool(name: &str) -> (r: Result<AgentTool, CoreError>)
    ensures
        name@ == "list_memos"@ ==> r == Ok::<AgentTool, CoreError>(AgentTool::ListMemos),
        name@ == "get_memo"@ ==> r == Ok::<AgentTool, CoreError>(AgentTool::GetMemo),
        name@ == "create_memo"@ ==> r == Ok::<AgentTool, CoreError>(AgentTool::CreateMemo),
        name@ == "list_tags"@ ==> r == Ok::<AgentTool, CoreError>(AgentTool::ListTags),
        name@ == "list_memos_by_tag"@ ==> r == Ok::<AgentTool, CoreError>(
            AgentTool::ListMemosByTag,
        ),
        !agent_tool_names().contains(name@) ==> (r matches Err(CoreError::Other(m)) && m@
            == "未知工具: "@ + name@),
{
    proof {
        reveal_strlit("list_memos");
        reveal_strlit("get_memo");
        reveal_strlit("create_memo");
        reveal_strlit("list_tags");
        reveal_strlit("list_memos_by_tag");
        assert("get_memo"@[0] != "list_memos"@[0]);
        assert("create_memo"@[0] != "list_memos"@[0] && "create_memo"@[0] != "get_memo"@[0]);
        assert("list_tags"@.len() != "list_memos"@.len() && "list_tags"@.len() != "get_memo"@.len()
            && "list_tags"@.len() != "create_memo"@.len());
        assert("list_memos_by_tag"@.len() != "list_memos"@.len() && "list_memos_by_tag"@.len()
            != "get_memo"@.len() && "list_memos_by_tag"@.len() != "create_memo"@.len()
            && "list_memos_by_tag"@.len() != "list_tags"@.len());
    }
    if str_equals(name, "list_memos") {
        Ok(AgentTool::ListMemos)
    } else if str_equals(name, "get_memo") {
        Ok(AgentTool::GetMemo)
    } else if str_equals(name, "create_memo") {
        Ok(AgentTool::CreateMemo)
    } else if str_equals(name, "list_tags") {
        Ok(AgentTool::ListTags)
    } else if str_equals(name, "list_memos_by_tag") {
        Ok(AgentTool::ListMemosByTag)
    } else {
        proof {
            assert(agent_tool_names()[0] == "list_memos"@);
            assert(agent_tool_names()[1] == "get_memo"@);
            assert(agent_tool_names()[2] == "create_memo"@);
            assert(agent_tool_names()[3] == "list_tags"@);
            assert(agent_tool_names()[4] == "list_memos_by_tag"@);
        }
        let mut m = String::from_str("未知工具: ");
        m.append(name);
        Err(CoreError::Other(m))
    }
}

/// Number of bytes of the UTF-8 encoding of `c`.
pub open spec fn utf8_len(c: char) -> nat {
    if (c as u32) < 0x80 {
        1
    } else if (c as u32) < 0x800 {
        2
    } else if (c as u32) < 0x10000 {
        3
    } else {
        4
    }
}

/// Whether the UTF-8 encoding of `w` is shorter than 3 bytes.
pub open spec fn short_word(w: Seq<char>) -> bool {
    w.len() == 0 || (w.len() == 1 && utf8_len(w[0]) < 3) || (w.len() == 2 && utf8_len(w[0]) == 1
        && utf8_len(w[1]) == 1)
}

/// A word as an FTS phrase: in double quotes, with inner double quotes doubled.
pub open spec fn fts_phrase(w: Seq<char>) -> Seq<char> {
    seq!['"'] + replace_all(w, seq!['"'], seq!['"', '"']) + seq!['"']
}

/// The FTS query for a list of words: each as a phrase, joined by spaces.
pub open spec fn fts_query_of(ws: Seq<Seq<char>>) -> Seq<char> {
    join_spaced(ws.map_values(|w: Seq<char>| fts_phrase(w)))
}

/// The limit of a `list_memos` call: the given number cut to 32 bits, 10 when absent, kept
/// between 1 and 50.
pub open spec fn list_memos_limit(limit: Option<i64>) -> i32 {
    let n: i32 = match limit {
        Some(x) => x as i32,
        None => 10,
    };
    if n > 50 {
        50
    } else if n < 1 {
        1
    } else {
        n
    }
}

/// Whether the UTF-8 encoding of `w` is shorter than 3 bytes.
fn is_short_word(w: &str) -> (r: bool)
    ensures
        r == short_word(w@),
{
    let c = chars_of(w);
    if c.len() == 0 {
        true
    } else if c.len() == 1 {
        (c[0] as u32) < 0x800
    } else if c.len() == 2 {
        (c[0] as u32) < 0x80 && (c[1] as u32) < 0x80
    } else {
        false
    }
}

/// The filter of a `list_memos` call: normal memos, newest first, with the limit of
/// `list_memos_limit`. A non-blank query searches the content: as a substring when one of
/// its words is shorter than 3 bytes, else as an FTS query of its words as phrases.
pub fn list_memos_tool_filter(query: &str, limit: Option<i64>) -> (f: FindMemo)
    ensures
        f.limit == Some(list_memos_limit(limit)),
        f.row_status == Some(RowStatus::Normal),
        !f.order_by_time_asc,
        query@.len() == 0 ==> f.content_contains is None && f.fts_query is None,
        query@.len() > 0 && (exists|k: int|
            0 <= k < words(query@).len() && short_word(#[trigger] words(query@)[k])) ==> (
        f.content_contains matches Some(c) && c@ == query@) && f.fts_query is None,
        query@.len() > 0 && !(exists|k: int|
            0 <= k < words(query@).len() && short_word(#[trigger] words(query@)[k])) ==> (
        f.fts_query matches Some(q) && q@ == fts_query_of(words(query@)))
            && f.content_contains is None,
        f.id is None,
        f.uid is None,
        f.tag_search@.len() == 0,
        f.visibility_list@.len() == 0,
        f.offset is None,
        f.vector_embedding is None,
{
    let mut f = FindMemo::all();
    let n: i32 = match limit {
        Some(x) => x as i32,
        None => 10,
    };
    let lim = if n > 50 {
        50
    } else if n < 1 {
        1
    } else {
        n
    };
    f.limit = Some(lim);
    f.row_status = Some(RowStatus::Normal);
    f.order_by_time_asc = false;
    let q = chars_of(query);
    if q.len() == 0 {
        return f;
    }
    let ws = split_words(query);
    let ghost wv = ws@.map_values(|x: String| x@);
    let mut has_short = false;
    let mut k: usize = 0;
    while k < ws.len()
        invariant
            k <= ws.len(),
            wv == ws@.map_values(|x: String| x@),
            wv == words(query@),
            has_short == (exists|j: int| 0 <= j < k && short_word(#[trigger] wv[j])),
        decreases ws.len() - k,
    {
        if is_short_word(ws[k].as_str()) {
            assert(short_word(wv[k as int]));
            has_short = true;
        }
        k = k + 1;
    }
    if has_short {
        f.content_contains = Some(String::from_str(query));
    } else {
        let quote = chars_of("\"");
        let doubled = chars_of("\"\"");
        proof {
            reveal_strlit("\"");
            reveal_strlit("\"\"");
            assert(quote@ =~= seq!['"']);
            assert(doubled@ =~= seq!['"', '"']);
        }
        let mut out: Vec<char> = Vec::new();
        let ghost phrases = wv.map_values(|w: Seq<char>| fts_phrase(w));
        let mut j: usize = 0;
        while j < ws.len()
            invariant
                j <= ws.len(),
                wv == ws@.map_values(|x: String| x@),
                phrases == wv.map_values(|w: Seq<char>| fts_phrase(w)),
                quote@ == seq!['"'],
                doubled@ == seq!['"', '"'],
                out@ == join_spaced(phrases.take(j as int)),
            decreases ws.len() - j,
        {
            if j > 0 {
                out.push(' ');
            }
            let wc = chars_of(ws[j].as_str());
            let esc = replace_chars(&wc, &quote, &doubled);
            let ghost before = out@;
            out.push('"');
            extend_chars(&mut out, esc.as_slice());
            out.push('"');
            proof {
                assert(wc@ == wv[j as int]);
                assert(phrases[j as int] == fts_phrase(wv[j as int]));
                let t = phrases.take(j + 1);
                assert(t.drop_last() =~= phrases.take(j as int));
                assert(t.last() == phrases[j as int]);
                if j == 0 {
                    assert(out@ =~= phrases[0]);
                } else {
                    assert(out@ =~= join_spaced(phrases.take(j as int)) + seq![' '] + phrases[j as int]);
                }
            }
            j = j + 1;
        }
        assert(phrases.take(ws.len() as int) =~= phrases);
        f.fts_query = Some(string_from_chars(out.as_slice()));
    }
    f
}

/// The limit of a `list_memos_by_tag` call: the given number cut to 32 bits, 50 when
/// absent, kept between 1 and 200.
pub open spec fn by_tag_limit(limit: Option<i64>) -> i32 {
    let n: i32 = match limit {
        Some(x) => x as i32,
        None => 50,
    };
    if n > 200 {
        200
    } else if n < 1 {
        1
    } else {
        n
    }
}

/// The filter of a `list_memos_by_tag` call: normal memos carrying all the tags, at most
/// `by_tag_limit`; none when no tag is given (the answer is then an empty list).
pub fn list_by_tag_filter(tags: Vec<String>, limit: Option<i64>) -> (r: Option<FindMemo>)
    ensures
        tags.len() == 0 ==> r is None,
        tags.len() > 0 ==> (r matches Some(f) && f.tag_search == tags && f.row_status == Some(
            RowStatus::Normal,
        ) && f.limit == Some(by_tag_limit(limit)) && f.fts_query is None
            && f.content_contains is None && f.id is None && f.uid is None),
{
    if tags.len() == 0 {
        return None;
    }
    let n: i32 = match limit {
        Some(x) => x as i32,
        None => 50,
    };
    let lim = if n > 200 {
        200
    } else if n < 1 {
        1
    } else {
        n
    };
    let mut f = FindMemo::all();
    f.tag_search = tags;
    f.row_status = Some(RowStatus::Normal);
    f.limit = Some(lim);
    Some(f)
}

/// A required string argument of a tool; when absent, refused with `缺少 {name} 参数`.
pub fn required_arg(value: Option<String>, name: &str) -> (r: Result<String, CoreError>)
    ensures
        value matches Some(v) ==> r == Ok::<String, CoreError>(v),
        value is None ==> (r matches Err(CoreError::Other(m)) && m@ == "缺少 "@ + name@
            + " 参数"@),
{
    match value {
        Some(v) => Ok(v),
        None => {
            let mut m = String::from_str("缺少 ");
            m.append(name);
            m.append(" 参数");
            Err(CoreError::Other(m))
        },
    }
}

/// A 16-digit lowercase hexadecimal id, from the low 64 bits of the clock in nanoseconds.
pub fn hex_uid(nanos: u64) -> (r: String)
    ensures
        r@ == zero_pad(hex(nanos as nat), 16),
{
    let mut v: Vec<char> = Vec::new();
    push_hex_padded(&mut v, nanos, 16);
    assert(v@ =~= zero_pad(hex(nanos as nat), 16));
    string_from_chars(v.as_slice())
}

/// The memo a `create_memo` call creates: private, not pinned, empty payload.
pub fn create_memo_request(uid: String, content: String) -> (c: CreateMemo)
    ensures
        c.uid == uid,
        c.content == content,
        c.visibility == Visibility::Private,
        !c.pinned,
        c.payload@ == "{}"@,
        c.location is None,
{
    CreateMemo {
        uid,
        content,
        visibility: Visibility::Private,
        pinned: false,
        payload: String::from_str("{}"),
        location: None,
    }
}

/// The name a memo's visibility is shown with to the model (`Public`, `Protected`,
/// `Private`).
pub fn visibility_label(v: Visibility) -> (r: &'static str)
    ensures
        r@ == match v {
            Visibility::Public => "Public"@,
            Visibility::Protected => "Protected"@,
            Visibility::Private => "Private"@,
        },
{
    match v {
        Visibility::Public => "Public",
        Visibility::Protected => "Protected",
        Visibility::Private => "Private",
    }
}

// ---------------------------------------------------------------------------
// The request loop
// ---------------------------------------------------------------------------

/// A message the loop adds to the conversation: the model's turn that asks for tools, or
/// the result of one tool.
#[derive(Debug, Clone)]
pub struct AgentMessage {
    /// `assistant` or `tool`.
    pub role: String,
    pub content: String,
    /// The tool calls of an assistant turn.
    pub tool_calls: Vec<ToolCallAccumulator>,
    /// The call a tool result answers.
    pub tool_call_id: Option<String>,
}

/// Where a run stands: how many rounds have asked for tools, out of how many allowed.
pub struct AgentRun {
    pub round: u32,
    pub max_rounds: u32,
}

/// What to do at the start of a round.
#[derive(Debug, Clone, Copy, PartialEq, Eq)]
pub enum RoundStart {
    /// The run was aborted or the application is closing: stop quietly.
    Cancel,
    /// Every round was used: report it.
    Exceeded,
    /// Send the conversation to the model.
    Request,
}

/// What to do once an answer has been read.
#[derive(Debug, Clone)]
pub enum AfterStream {
    /// The run was aborted meanwhile: stop quietly.
    Cancel,
    /// The answer asks for no tool: the run is over, with this text.
    Finish(String),
    /// Append this turn, run its tool calls in order and start the next round.
    RunTools(AgentMessage),
}

impl AgentRun {
    /// A run with no round done yet.
    pub fn new(max_rounds: u32) -> (r: AgentRun)
        ensures
            r.round == 0,
            r.max_rounds == max_rounds,
    {
        AgentRun { round: 0, max_rounds }
    }

    /// The decision at the start of a round: once every round was used the run is over
    /// (an abort is looked at only before a round that may still run).
    pub fn begin_round(&self, aborted: bool) -> (r: RoundStart)
        ensures
            self.round >= self.max_rounds ==> r == RoundStart::Exceeded,
            self.round < self.max_rounds && aborted ==> r == RoundStart::Cancel,
            self.round < self.max_rounds && !aborted ==> r == RoundStart::Request,
    {
        if self.round >= self.max_rounds {
            RoundStart::Exceeded
        } else if aborted {
            RoundStart::Cancel
        } else {
            RoundStart::Request
        }
    }

    /// The decision once the answer of the current round has been read.
    pub fn end_stream(&mut self, content: String, tool_calls: Vec<ToolCallAccumulator>, aborted: bool) -> (r:
        AfterStream)
        requires
            old(self).round < old(self).max_rounds,
        ensures
            final(self).max_rounds == old(self).max_rounds,
            final(self).round <= final(self).max_rounds,
            aborted ==> (r matches AfterStream::Cancel) && final(self).round == old(self).round,
            !aborted && tool_calls.len() == 0 ==> (r matches AfterStream::Finish(t) && t == content)
                && final(self).round == old(self).round,
            !aborted && tool_calls.len() > 0 ==> (r matches AfterStream::RunTools(m) && m.role@
                == "assistant"@ && m.content == content && m.tool_calls == tool_calls
                && m.tool_call_id is None) && final(self).round == old(self).round + 1,
    {
        if aborted {
            AfterStream::Cancel
        } else if tool_calls.len() == 0 {
            AfterStream::Finish(content)
        } else {
            self.round = self.round + 1;
            AfterStream::RunTools(
                AgentMessage {
                    role: String::from_str("assistant"),
                    content,
                    tool_calls,
                    tool_call_id: None,
                },
            )
        }
    }
}

/// The requests a run makes from `round` on when no abort comes, given whether each answer
/// in turn asks for tools: `begin_round` asks for a request while fewer than `max_rounds`
/// rounds have asked for tools; an answer without tools ends the run, one with tools counts
/// a round (`end_stream`).
pub open spec fn requests_made(round: nat, max_rounds: nat, asks_tools: Seq<bool>) -> nat
    decreases asks_tools.len(),
{
    if round >= max_rounds || asks_tools.len() == 0 {
        0
    } else if !asks_tools[0] {
        1
    } else {
        1 + requests_made(round + 1, max_rounds, asks_tools.drop_first())
    }
}

/// Law: a run makes at most `max_rounds` requests to the model, whatever the answers.
pub proof fn law_requests_bounded(round: nat, max_rounds: nat, asks_tools: Seq<bool>)
    ensures
        requests_made(round, max_rounds, asks_tools) <= if round <= max_rounds {
            max_rounds - round
        } else {
            0
        },
    decreases asks_tools.len(),
{
    if round < max_rounds && asks_tools.len() > 0 && asks_tools[0] {
        law_requests_bounded(round + 1, max_rounds, asks_tools.drop_first());
    }
}

/// How a round of a run goes, as the host sees it: whether an abort was seen before the
/// request, whether the request failed, whether an abort was seen after the answer, and
/// whether the answer asks for tools.
#[derive(Debug, Clone, Copy, PartialEq, Eq)]
pub struct RoundEvents {
    pub aborted_before: bool,
    pub request_failed: bool,
    pub aborted_after: bool,
    pub asks_tools: bool,
}

/// How a run ends.
#[derive(Debug, Clone, Copy, PartialEq, Eq)]
pub enum RunEnd {
    /// An answer without tools: `ai:done`.
    Done,
    /// A failed request or every round used: `ai:error`.
    Failed,
    /// An abort: nothing is reported.
    Cancelled,
    /// The rounds given did not end the run.
    Open,
}

/// How a run goes from `round` on through the given rounds, by the decisions of
/// `begin_round` (cancel, exceeded or request) and `end_stream` (cancel, finish or tools).
pub open spec fn run_end(round: nat, max_rounds: nat, rounds: Seq<RoundEvents>) -> RunEnd
    decreases rounds.len(),
{
    if rounds.len() == 0 {
        RunEnd::Open
    } else {
        let e = rounds[0];
        if round >= max_rounds {
            RunEnd::Failed
        } else if e.aborted_before {
            RunEnd::Cancelled
        } else if e.request_failed {
            RunEnd::Failed
        } else if e.aborted_after {
            RunEnd::Cancelled
        } else if !e.asks_tools {
            RunEnd::Done
        } else {
            run_end(round + 1, max_rounds, rounds.drop_first())
        }
    }
}

/// Law: every run ends, in exactly one of done, failed or cancelled, by the time
/// `max_rounds + 1` rounds have started, whatever the model answers and whenever an abort
/// comes.
pub proof fn law_run_ends(round: nat, max_rounds: nat, rounds: Seq<RoundEvents>)
    requires
        round <= max_rounds,
        rounds.len() > max_rounds - round,
    ensures
        run_end(round, max_rounds, rounds) != RunEnd::Open,
    decreases rounds.len(),
{
    let e = rounds[0];
    if round < max_rounds && !e.aborted_before && !e.request_failed && !e.aborted_after
        && e.asks_tools {
        law_run_ends(round + 1, max_rounds, rounds.drop_first());
    }
}

/// The message that carries a tool's result back to the model.
pub fn tool_reply(tool_call_id: String, result: String) -> (m: AgentMessage)
    ensures
        m.role@ == "tool"@,
        m.content == result,
        m.tool_calls.len() == 0,
        m.tool_call_id == Some(tool_call_id),
{
    AgentMessage {
        role: String::from_str("tool"),
        content: result,
        tool_calls: Vec::new(),
        tool_call_id: Some(tool_call_id),
    }
}

/// Whether an HTTP status reports a failure.
pub fn is_http_failure(status: u16) -> (r: bool)
    ensures
        r == (status >= 400),
{
    status >= 400
}

/// `HTTP {status}: {body}`.
pub fn http_error_message(status: u16, body: &str) -> (r: String)
    ensures
        r@ == "HTTP "@ + decimal(status as nat) + ": "@ + body@,
{
    let mut v = chars_of("HTTP ");
    push_decimal(&mut v, status as u64);
    let sep = chars_of(": ");
    extend_chars(&mut v, sep.as_slice());
    let b = chars_of(body);
    extend_chars(&mut v, b.as_slice());
    string_from_chars(v.as_slice())
}

/// `prefix` followed by `detail`.
pub fn prefixed_message(prefix: &str, detail: &str) -> (r: String)
    ensures
        r@ == prefix@ + detail@,
{
    let mut s = String::from_str(prefix);
    s.append(detail);
    s
}

/// The report of a run that used all its rounds: `超过最大工具调用轮次 ({max})`.
pub fn rounds_exceeded_message(max: u32) -> (r: String)
    ensures
        r@ == "超过最大工具调用轮次 ("@ + decimal(max as nat) + ")"@,
{
    let mut v = chars_of("超过最大工具调用轮次 (");
    push_decimal(&mut v, max as u64);
    v.push(')');
    proof {
        reveal_strlit(")");
    }
    assert(v@ =~= "超过最大工具调用轮次 ("@ + decimal(max as nat) + ")"@);
    string_from_chars(v.as_slice())
}

} // verus!
