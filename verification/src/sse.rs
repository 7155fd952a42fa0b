//! The server-sent event stream of an OpenAI-compatible chat completion.
//!
//! Each line `data: {json}` carries one chunk, `data: [DONE]` ends the stream. Text arrives
//! in pieces that are joined; tool calls arrive in pieces too and are joined by their index.
use crate::text::{chars_of, string_from_chars, sub_chars, trim_chars, trim_ws};
use vstd::prelude::*;

verus! {

/// A tool call put together from the pieces of the stream.
#[derive(Debug, Clone)]
pub struct ToolCallAccumulator {
    pub index: u32,
    pub id: String,
    pub name: String,
    pub arguments: String,
}

/// What a tool call put together so far holds.
pub struct ToolCallView {
    pub index: u32,
    pub id: Seq<char>,
    pub name: Seq<char>,
    pub arguments: Seq<char>,
}

impl View for ToolCallAccumulator {
    type V = ToolCallView;

    open spec fn view(&self) -> ToolCallView {
        ToolCallView {
            index: self.index,
            id: self.id@,
            name: self.name@,
            arguments: self.arguments@,
        }
    }
}

impl Default for ToolCallAccumulator {
    fn default() -> (r: Self)
        ensures
            r@ == (ToolCallView { index: 0, id: seq![], name: seq![], arguments: seq![] }),
    {
        ToolCallAccumulator {
            index: 0,
            id: String::new(),
            name: String::new(),
            arguments: String::new(),
        }
    }
}

/// One event of the stream.
#[derive(Debug, Clone)]
pub struct SseEvent {
    /// A piece of the answer's text.
    pub content_delta: Option<String>,
    /// A piece of a tool call.
    pub tool_call_delta: Option<ToolCallDelta>,
    /// Why the answer ended, when it did; `[DONE]` for the end of the stream.
    pub finish_reason: Option<String>,
}

/// A piece of the tool call with the given index.
#[derive(Debug, Clone)]
pub struct ToolCallDelta {
    pub index: u32,
    pub id: Option<String>,
    pub function_name: Option<String>,
    pub arguments_chunk: Option<String>,
}

/// What a line of the stream is.
#[derive(Debug, Clone)]
pub enum SseLine {
    /// Not a data line.
    Ignored,
    /// `data: [DONE]`.
    Done,
    /// The data of a data line, without the `data:` prefix and surrounding whitespace.
    Data(String),
}

/// The fields of one decoded chunk that an event is made of, read from its first choice.
#[derive(Debug, Clone)]
pub struct StreamDelta {
    /// `delta.content`, when it is a string.
    pub content: Option<String>,
    /// `finish_reason`, when it is a string.
    pub finish_reason: Option<String>,
    /// The first entry of `delta.tool_calls`, when there is one.
    pub tool_call: Option<StreamToolCall>,
}

/// The fields of one entry of `delta.tool_calls`.
#[derive(Debug, Clone)]
pub struct StreamToolCall {
    /// `index`, when it is an unsigned integer.
    pub index: Option<u64>,
    /// `id`, when it is a string.
    pub id: Option<String>,
    /// `function.name`, when it is a string.
    pub function_name: Option<String>,
    /// `function.arguments`, when it is a string.
    pub arguments: Option<String>,
}

/// Whether `s` begins with `p`.
pub open spec fn starts_with(s: Seq<char>, p: Seq<char>) -> bool {
    p.len() <= s.len() && s.take(p.len() as int) == p
}

/// `s` with every leading repetition of `p` removed, as `str::trim_start_matches` does.
pub open spec fn strip_repeated(s: Seq<char>, p: Seq<char>) -> Seq<char>
    decreases s.len(),
{
    if p.len() > 0 && starts_with(s, p) {
        strip_repeated(s.skip(p.len() as int), p)
    } else {
        s
    }
}

/// The data of a data line: the trimmed line without its `data:` prefixes, trimmed again.
pub open spec fn line_data(line: Seq<char>) -> Seq<char> {
    trim_ws(strip_repeated(trim_ws(line), "data:"@))
}

/// Whether the trimmed line is a data line.
pub open spec fn is_data_line(line: Seq<char>) -> bool {
    starts_with(trim_ws(line), "data:"@)
}

/// Whether `s` from position `start` on begins with `p`.
fn has_prefix_at(s: &[char], start: usize, p: &[char]) -> (r: bool)
    requires
        start <= s.len(),
    ensures
        r == starts_with(s@.skip(start as int), p@),
{
    if p.len() > s.len() - start {
        return false;
    }
    let mut k: usize = 0;
    while k < p.len()
        invariant
            k <= p.len(),
            start + p.len() <= s.len(),
            forall|q: int| 0 <= q < k ==> s@[start + q] == p@[q],
        decreases p.len() - k,
    {
        if s[start + k] != p[k] {
            assert(s@.skip(start as int).take(p.len() as int)[k as int] != p@[k as int]);
            return false;
        }
        k = k + 1;
    }
    assert(s@.skip(start as int).take(p.len() as int) =~= p@);
    true
}

/// What a line of the stream is: not a data line, the end marker, or data.
pub fn classify_sse_line(line: &str) -> (r: SseLine)
    ensures
        !is_data_line(line@) ==> r is Ignored,
        is_data_line(line@) && line_data(line@) == "[DONE]"@ ==> r is Done,
        is_data_line(line@) && line_data(line@) != "[DONE]"@ ==> (r matches SseLine::Data(d) && d@
            == line_data(line@)),
{
    let all = chars_of(line);
    let t = trim_chars(all.as_slice());
    let prefix = chars_of("data:");
    proof {
        reveal_strlit("data:");
        assert(prefix@.len() == 5);
    }
    if !has_prefix_at(t.as_slice(), 0, prefix.as_slice()) {
        assert(t@.skip(0) =~= t@);
        return SseLine::Ignored;
    }
    assert(t@.skip(0) =~= t@);
    let mut pos: usize = 0;
    while has_prefix_at(t.as_slice(), pos, prefix.as_slice())
        invariant
            pos <= t.len(),
            prefix@ == "data:"@,
            prefix@.len() == 5,
            strip_repeated(t@, "data:"@) == strip_repeated(t@.skip(pos as int), "data:"@),
        decreases t.len() - pos,
    {
        let ghost before = t@.skip(pos as int);
        assert(strip_repeated(before, "data:"@) == strip_repeated(before.skip(5), "data:"@));
        pos = pos + prefix.len();
        assert(before.skip(5) =~= t@.skip(pos as int));
    }
    let rest = sub_chars(t.as_slice(), pos, t.len());
    assert(rest@ =~= t@.skip(pos as int));
    let data = trim_chars(rest.as_slice());
    let done = chars_of("[DONE]");
    if crate::text::chars_equal(data.as_slice(), done.as_slice()) {
        SseLine::Done
    } else {
        SseLine::Data(string_from_chars(data.as_slice()))
    }
}

/// The event that ends the stream: `finish_reason` `[DONE]` and nothing else.
pub fn done_event() -> (e: SseEvent)
    ensures
        e.content_delta is None,
        e.tool_call_delta is None,
        e.finish_reason matches Some(f) && f@ == "[DONE]"@,
{
    SseEvent {
        content_delta: None,
        tool_call_delta: None,
        finish_reason: Some(String::from_str("[DONE]")),
    }
}

/// The tool call piece of an entry: none when it has no id, name or arguments; its index
/// is 0 when absent and is cut to 32 bits.
pub open spec fn tool_delta_of(tc: Option<StreamToolCall>) -> Option<ToolCallDelta> {
    match tc {
        None => None,
        Some(t) => if t.id is None && t.function_name is None && t.arguments is None {
            None
        } else {
            Some(
                ToolCallDelta {
                    index: match t.index {
                        Some(i) => i as u32,
                        None => 0,
                    },
                    id: t.id,
                    function_name: t.function_name,
                    arguments_chunk: t.arguments,
                },
            )
        },
    }
}

/// The event made of a decoded chunk.
pub fn event_from_delta(d: StreamDelta) -> (e: SseEvent)
    ensures
        e.content_delta == d.content,
        e.finish_reason == d.finish_reason,
        e.tool_call_delta == tool_delta_of(d.tool_call),
{
    let ghost dt = d.tool_call;
    let tool_call_delta = match d.tool_call {
        None => None,
        Some(t) => {
            if t.id.is_none() && t.function_name.is_none() && t.arguments.is_none() {
                None
            } else {
                let index: u32 = match t.index {
                    Some(i) => i as u32,
                    None => 0,
                };
                Some(
                    ToolCallDelta {
                        index,
                        id: t.id,
                        function_name: t.function_name,
                        arguments_chunk: t.arguments,
                    },
                )
            }
        },
    };
    SseEvent { content_delta: d.content, tool_call_delta, finish_reason: d.finish_reason }
}

/// Whether the stream reader passes over a line unread: an empty line or a comment.
pub fn skip_stream_line(line: &str) -> (r: bool)
    ensures
        r == (line@.len() == 0 || line@[0] == ':'),
{
    let c = chars_of(line);
    c.len() == 0 || c[0] == ':'
}

/// The characters of an optional string; none when absent.
pub open spec fn opt_chars(s: Option<String>) -> Seq<char> {
    match s {
        Some(x) => x@,
        None => seq![],
    }
}

/// A tool call after one piece: a given id or name replaces the old one, a given piece of
/// arguments is appended.
pub open spec fn merge_piece(t: ToolCallView, d: ToolCallDelta) -> ToolCallView {
    ToolCallView {
        index: t.index,
        id: match d.id {
            Some(x) => x@,
            None => t.id,
        },
        name: match d.function_name {
            Some(x) => x@,
            None => t.name,
        },
        arguments: t.arguments + opt_chars(d.arguments_chunk),
    }
}

/// A call opened with nothing in it yet, at position `i`.
pub open spec fn fresh_call(i: int) -> ToolCallView {
    ToolCallView { index: i as u32, id: seq![], name: seq![], arguments: seq![] }
}

/// The calls grown to at least `n`, each new one empty and carrying its position as index.
pub open spec fn grow_to(calls: Seq<ToolCallView>, n: int) -> Seq<ToolCallView> {
    if calls.len() >= n {
        calls
    } else {
        calls + Seq::new((n - calls.len()) as nat, |j: int| fresh_call(calls.len() + j))
    }
}

/// The tool calls after one piece: the list is first grown to reach the piece's index (the
/// new calls empty, each with its position as index); then the piece is merged into the
/// call at its index.
pub open spec fn apply_piece(calls: Seq<ToolCallView>, d: ToolCallDelta) -> Seq<ToolCallView> {
    let grown = grow_to(calls, d.index as int + 1);
    grown.update(d.index as int, merge_piece(grown[d.index as int], d))
}

/// The views of a list of tool calls.
pub open spec fn call_views(v: Seq<ToolCallAccumulator>) -> Seq<ToolCallView> {
    v.map_values(|t: ToolCallAccumulator| t@)
}

/// The text and tool calls of a stream read so far.
pub struct SseStream {
    pub content: String,
    pub tool_calls: Vec<ToolCallAccumulator>,
}

impl SseStream {
    /// A stream with nothing read yet.
    pub fn new() -> (s: SseStream)
        ensures
            s.content@ == Seq::<char>::empty(),
            s.tool_calls@.len() == 0,
    {
        SseStream { content: String::new(), tool_calls: Vec::new() }
    }

    /// Takes in one event: its text is appended, its tool call piece merged (the list of
    /// calls grows to reach the piece's index). Returns whether the event ends the stream
    /// (`finish_reason` `[DONE]`).
    pub fn apply(&mut self, event: &SseEvent) -> (stop: bool)
        ensures
            final(self).content@ == old(self).content@ + opt_chars(event.content_delta),
            call_views(final(self).tool_calls@) == match event.tool_call_delta {
                Some(d) => apply_piece(call_views(old(self).tool_calls@), d),
                None => call_views(old(self).tool_calls@),
            },
            stop == (event.finish_reason matches Some(f) && f@ == "[DONE]"@),
    {
        if let Some(delta) = &event.content_delta {
            self.content.append(delta.as_str());
        }
        if let Some(d) = &event.tool_call_delta {
            let idx = d.index as usize;
            let ghost before = call_views(self.tool_calls@);
            let ghost text_now = self.content@;
            assert(grow_to(before, self.tool_calls.len() as int) == before);
            while self.tool_calls.len() <= idx
                invariant
                    self.content@ == text_now,
                    idx == d.index as usize,
                    before.len() <= self.tool_calls.len(),
                    self.tool_calls.len() <= before.len() || self.tool_calls.len() <= idx + 1,
                    call_views(self.tool_calls@) == grow_to(before, self.tool_calls.len() as int),
                decreases idx + 1 - self.tool_calls.len(),
            {
                let n = self.tool_calls.len();
                let fresh = ToolCallAccumulator {
                    index: n as u32,
                    id: String::new(),
                    name: String::new(),
                    arguments: String::new(),
                };
                let ghost fv = fresh@;
                let ghost prev = call_views(self.tool_calls@);
                assert(fv == fresh_call(n as int));
                self.tool_calls.push(fresh);
                assert(call_views(self.tool_calls@) =~= prev.push(fv));
                assert(prev.push(fv) =~= grow_to(before, n + 1));
            }
            assert(call_views(self.tool_calls@) == grow_to(before, idx + 1));
            let ghost grown = call_views(self.tool_calls@);
            let old_t = &self.tool_calls[idx];
            let id = match &d.id {
                Some(x) => x.clone(),
                None => old_t.id.clone(),
            };
            let name = match &d.function_name {
                Some(x) => x.clone(),
                None => old_t.name.clone(),
            };
            let mut arguments = old_t.arguments.clone();
            if let Some(a) = &d.arguments_chunk {
                arguments.append(a.as_str());
            }
            let merged = ToolCallAccumulator { index: old_t.index, id, name, arguments };
            assert(merged@ == merge_piece(grown[idx as int], *d));
            let ghost mv = merged@;
            self.tool_calls.set(idx, merged);
            assert(call_views(self.tool_calls@) =~= grown.update(idx as int, mv));
        }
        match &event.finish_reason {
            Some(f) => {
                proof {
                    reveal_strlit("[DONE]");
                }
                crate::text::str_equals(f.as_str(), "[DONE]")
            },
            None => false,
        }
    }
}


/// The tool calls put together from the tool-call pieces of a whole stream, in order (what
/// `SseStream::apply` leaves, piece after piece, from a new stream).
pub open spec fn calls_after(pieces: Seq<ToolCallDelta>) -> Seq<ToolCallView>
    decreases pieces.len(),
{
    if pieces.len() == 0 {
        seq![]
    } else {
        apply_piece(calls_after(pieces.drop_last()), pieces.last())
    }
}

/// One more than the highest index of the pieces, 0 when there is none.
pub open spec fn calls_needed(pieces: Seq<ToolCallDelta>) -> nat
    decreases pieces.len(),
{
    if pieces.len() == 0 {
        0
    } else {
        let n = calls_needed(pieces.drop_last());
        if pieces.last().index as nat + 1 > n {
            pieces.last().index as nat + 1
        } else {
            n
        }
    }
}

/// The argument pieces given for index `i`, joined in order.
pub open spec fn arguments_for(pieces: Seq<ToolCallDelta>, i: int) -> Seq<char>
    decreases pieces.len(),
{
    if pieces.len() == 0 {
        seq![]
    } else {
        arguments_for(pieces.drop_last(), i) + if pieces.last().index as int == i {
            opt_chars(pieces.last().arguments_chunk)
        } else {
            seq![]
        }
    }
}

/// Law: after a whole stream there is one tool call more than the highest index any piece
/// named (none when no piece came); call `i` carries index `i`, and its arguments are the
/// argument pieces given for index `i`, joined in the order they came.
pub proof fn law_stream_tool_calls(pieces: Seq<ToolCallDelta>)
    ensures
        calls_after(pieces).len() == calls_needed(pieces),
        forall|i: int|
            0 <= i < calls_after(pieces).len() ==> (#[trigger] calls_after(pieces)[i]).index == i
                && calls_after(pieces)[i].arguments == arguments_for(pieces, i),
        forall|i: int| i >= calls_needed(pieces) ==> #[trigger] arguments_for(pieces, i) == Seq::<
            char,
        >::empty(),
    decreases pieces.len(),
{
    if pieces.len() > 0 {
        let d = pieces.drop_last();
        let x = pieces.last();
        law_stream_tool_calls(d);
        let prev = calls_after(d);
        let idx = x.index as int;
        let grown = grow_to(prev, idx + 1);
        assert(grown.len() == calls_needed(pieces));
        assert forall|i: int| 0 <= i < calls_after(pieces).len() implies (#[trigger] calls_after(
            pieces,
        )[i]).index == i && calls_after(pieces)[i].arguments == arguments_for(pieces, i) by {
            assert(arguments_for(pieces, i) == arguments_for(d, i) + if idx == i {
                opt_chars(x.arguments_chunk)
            } else {
                seq![]
            });
            if i < prev.len() {
                assert(grown[i] == prev[i]);
            } else {
                assert(grown[i] == fresh_call(i));
                assert(arguments_for(d, i) == Seq::<char>::empty());
                assert(i <= u32::MAX);
            }
            if i == idx {
                assert(calls_after(pieces)[i] == merge_piece(grown[i], x));
            } else {
                assert(calls_after(pieces)[i] == grown[i]);
                assert(arguments_for(pieces, i) =~= arguments_for(d, i));
            }
        }
        assert forall|i: int| i >= calls_needed(pieces) implies #[trigger] arguments_for(pieces, i)
            == Seq::<char>::empty() by {
            assert(arguments_for(d, i) == Seq::<char>::empty());
            assert(arguments_for(pieces, i) =~= arguments_for(d, i));
        }
    }
}

} // verus!
