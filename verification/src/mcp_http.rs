//! The small HTTP/1.1 front of the tool server: reading a request head, deciding whether the
//! request is served, and writing answers.
//!
//! Only `POST /mcp` is served. When a token is configured the request must carry it as a
//! bearer token; bodies above `MAX_REQUEST_BODY` bytes and heads above `MAX_HEADERS_BYTES`
//! bytes are refused.
use crate::mcp::McpConfig;
use crate::text::{
    chars_of, decimal, extend_chars, push_decimal, str_equals, string_from_chars, sub_chars,
    trim_chars, trim_ws, words,
};
use vstd::prelude::*;
use vstd::utf8::{decode_utf8, encode_utf8, valid_utf8};

verus! {

/// Largest request body, in bytes (8 MB).
pub const MAX_REQUEST_BODY: usize = 8388608;

/// Largest request head, in bytes (16 KB).
pub const MAX_HEADERS_BYTES: usize = 16384;

/// The text `String::from_utf8_lossy` makes of the bytes.
pub uninterp spec fn utf8_lossy(bytes: Seq<u8>) -> Seq<char>;

/// Calls `String::from_utf8_lossy` and takes the text. Valid UTF-8 is decoded as it is;
/// invalid sequences become U+FFFD, which the contract leaves to the name `utf8_lossy`.
#[verifier::external_body]
fn lossy_text(bytes: &[u8]) -> (r: String)
    ensures
        r@ == utf8_lossy(bytes@),
        valid_utf8(bytes@) ==> r@ == decode_utf8(bytes@),
{
    String::from_utf8_lossy(bytes).into_owned()
}

/// Whether a request head is complete: it ends with an empty line.
pub fn head_complete(buf: &Vec<u8>) -> (r: bool)
    ensures
        r == (buf@.len() >= 4 && buf@.skip(buf@.len() - 4) == seq![13u8, 10u8, 13u8, 10u8]),
{
    let n = buf.len();
    if n < 4 {
        return false;
    }
    let r = buf[n - 4] == 13 && buf[n - 3] == 10 && buf[n - 2] == 13 && buf[n - 1] == 10;
    proof {
        let t = buf@.skip(n - 4);
        if r {
            assert(t =~= seq![13u8, 10u8, 13u8, 10u8]);
        } else {
            if t == seq![13u8, 10u8, 13u8, 10u8] {
                assert(t[0] == buf@[n - 4]);
                assert(t[1] == buf@[n - 3]);
                assert(t[2] == buf@[n - 2]);
                assert(t[3] == buf@[n - 1]);
            }
        }
    }
    r
}

/// Whether a head of `len` bytes read so far is too large to go on reading.
pub fn head_too_large(len: usize) -> (r: bool)
    ensures
        r == (len >= MAX_HEADERS_BYTES),
{
    len >= MAX_HEADERS_BYTES
}

/// Whether a line break `\r\n` starts at `i`.
pub open spec fn crlf_at(s: Seq<char>, i: int) -> bool {
    0 <= i && i + 1 < s.len() && s[i] == '\r' && s[i + 1] == '\n'
}

/// The lines of `s` split at `\r\n`, the current one starting at `start`, scanning from `i`
/// (`str::split("\r\n")`).
pub open spec fn lines_from(s: Seq<char>, start: int, i: int) -> Seq<Seq<char>>
    decreases s.len() - i,
{
    if i < 0 || start < 0 || start > i || i + 1 >= s.len() {
        seq![s.subrange(start, s.len() as int)]
    } else if crlf_at(s, i) {
        seq![s.subrange(start, i)] + lines_from(s, i + 2, i + 2)
    } else {
        lines_from(s, start, i + 1)
    }
}

/// The lines of a request head.
pub open spec fn head_lines(s: Seq<char>) -> Seq<Seq<char>> {
    lines_from(s, 0, 0)
}

/// Splits at `\r\n`.
fn split_crlf(s: &Vec<char>) -> (r: Vec<Vec<char>>)
    ensures
        r@.map_values(|v: Vec<char>| v@) == head_lines(s@),
{
    let mut out: Vec<Vec<char>> = Vec::new();
    let mut start: usize = 0;
    let mut i: usize = 0;
    let n = s.len();
    assert(out@.map_values(|v: Vec<char>| v@) =~= Seq::<Seq<char>>::empty());
    while n > 0 && i < n - 1
        invariant
            n == s.len(),
            start <= i <= n,
            head_lines(s@) == out@.map_values(|v: Vec<char>| v@) + lines_from(
                s@,
                start as int,
                i as int,
            ),
        decreases n - i,
    {
        if s[i] == '\r' && s[i + 1] == '\n' {
            let piece = sub_chars(s.as_slice(), start, i);
            let ghost before = out@.map_values(|v: Vec<char>| v@);
            let ghost pv = piece@;
            out.push(piece);
            assert(out@.map_values(|v: Vec<char>| v@) =~= before.push(pv));
            assert(before + (seq![pv] + lines_from(s@, i + 2, i + 2)) =~= before.push(pv)
                + lines_from(s@, i + 2, i + 2));
            i = i + 2;
            start = i;
        } else {
            i = i + 1;
        }
    }
    let last = sub_chars(s.as_slice(), start, n);
    let ghost before = out@.map_values(|v: Vec<char>| v@);
    let ghost lv = last@;
    out.push(last);
    assert(out@.map_values(|v: Vec<char>| v@) =~= before.push(lv));
    assert(before + seq![lv] =~= before.push(lv));
    out
}

/// `s` with ASCII capitals made small (`to_ascii_lowercase`).
pub open spec fn ascii_lower(s: Seq<char>) -> Seq<char> {
    s.map_values(|c: char| if 'A' <= c && c <= 'Z' { ((c as u32) + 32) as char } else { c })
}

fn lower_ascii(s: &Vec<char>) -> (r: Vec<char>)
    ensures
        r@ == ascii_lower(s@),
{
    let mut out: Vec<char> = Vec::new();
    let mut k: usize = 0;
    while k < s.len()
        invariant
            k <= s.len(),
            out@ == ascii_lower(s@.take(k as int)),
        decreases s.len() - k,
    {
        let c = s[k];
        let d = if 'A' <= c && c <= 'Z' {
            (((c as u32) + 32) as u8) as char
        } else {
            c
        };
        assert(d == if 'A' <= c && c <= 'Z' {
            ((c as u32) + 32) as char
        } else {
            c
        }) by {
            if 'A' <= c && c <= 'Z' {
                assert((((c as u32) + 32) as u8) as char == ((c as u32) + 32) as char);
            }
        }
        out.push(d);
        k = k + 1;
        assert(ascii_lower(s@.take(k as int)) =~= ascii_lower(s@.take(k - 1)).push(d));
    }
    assert(s@.take(s.len() as int) =~= s@);
    out
}

/// Position of the first `:` of a line, if any.
pub open spec fn colon_in(l: Seq<char>) -> Option<int> {
    if exists|i: int| 0 <= i < l.len() && l[i] == ':' {
        Some(choose|i: int| 0 <= i < l.len() && l[i] == ':' && forall|j: int| 0 <= j < i ==> l[j] != ':')
    } else {
        None
    }
}

/// The header a line holds: the lowercase trimmed text before its first `:` and the
/// trimmed text after it; none when it has no `:`.
pub open spec fn header_field(l: Seq<char>) -> Option<(Seq<char>, Seq<char>)> {
    match colon_in(l) {
        Some(c) => Some((ascii_lower(trim_ws(l.take(c))), trim_ws(l.skip(c + 1)))),
        None => None,
    }
}

/// The value of the last of the lines that holds header `key`.
pub open spec fn header_of(lines: Seq<Seq<char>>, key: Seq<char>) -> Option<Seq<char>>
    decreases lines.len(),
{
    if lines.len() == 0 {
        None
    } else {
        match header_field(lines.last()) {
            Some((n, v)) => if n == key {
                Some(v)
            } else {
                header_of(lines.drop_last(), key)
            },
            None => header_of(lines.drop_last(), key),
        }
    }
}

/// The value of the digits `d`.
pub open spec fn decimal_value(d: Seq<char>) -> int
    decreases d.len(),
{
    if d.len() == 0 {
        0
    } else {
        decimal_value(d.drop_last()) * 10 + ((d.last() as u32) - ('0' as u32))
    }
}

/// Whether every character is an ASCII digit.
pub open spec fn all_digits(d: Seq<char>) -> bool {
    forall|i: int| 0 <= i < d.len() ==> '0' <= #[trigger] d[i] && d[i] <= '9'
}

/// The number `usize::from_str` reads: an optional `+`, then at least one digit, the value
/// within `usize`.
pub open spec fn parse_size(s: Seq<char>) -> Option<int> {
    let d = if s.len() > 0 && s[0] == '+' {
        s.skip(1)
    } else {
        s
    };
    if d.len() > 0 && all_digits(d) && decimal_value(d) <= usize::MAX {
        Some(decimal_value(d))
    } else {
        None
    }
}

proof fn lemma_decimal_value_grows(d: Seq<char>, k: int)
    requires
        0 <= k <= d.len(),
        all_digits(d),
    ensures
        decimal_value(d.take(k)) <= decimal_value(d),
        0 <= decimal_value(d.take(k)),
    decreases d.len() - k,
{
    if k < d.len() {
        lemma_decimal_value_grows(d, k + 1);
        assert(d.take(k + 1).drop_last() =~= d.take(k));
        assert(d.take(k + 1).last() == d[k]);
    } else {
        assert(d.take(k) =~= d);
    }
    lemma_decimal_value_nonneg(d.take(k));
}

proof fn lemma_decimal_value_nonneg(d: Seq<char>)
    requires
        all_digits(d),
    ensures
        0 <= decimal_value(d),
    decreases d.len(),
{
    if d.len() > 0 {
        assert(all_digits(d.drop_last())) by {
            assert forall|i: int| 0 <= i < d.drop_last().len() implies '0' <= #[trigger] d.drop_last()[i]
                && d.drop_last()[i] <= '9' by {
                assert(d.drop_last()[i] == d[i]);
            }
        }
        lemma_decimal_value_nonneg(d.drop_last());
    }
}

/// Reads a size as `usize::from_str` does; `None` for text it refuses.
pub fn parse_size_text(s: &Vec<char>) -> (r: Option<usize>)
    ensures
        match parse_size(s@) {
            Some(v) => r == Some(v as usize),
            None => r is None,
        },
{
    let start: usize = if s.len() > 0 && s[0] == '+' {
        1
    } else {
        0
    };
    let ghost d = if s@.len() > 0 && s@[0] == '+' {
        s@.skip(1)
    } else {
        s@
    };
    assert(d =~= s@.skip(start as int));
    if start >= s.len() {
        return None;
    }
    let mut acc: usize = 0;
    let mut k: usize = start;
    let mut ok = true;
    while k < s.len()
        invariant
            start <= k <= s.len(),
            d == s@.skip(start as int),
            ok ==> acc as int == decimal_value(d.take(k - start)),
            ok ==> all_digits(d.take(k - start)),
            !ok ==> (!all_digits(d) || decimal_value(d) > usize::MAX || !all_digits(d.take(
                k - start,
            ))),
        decreases s.len() - k,
    {
        let c = s[k];
        let ghost j = k - start;
        proof {
            assert(d.take(j + 1).drop_last() =~= d.take(j));
            assert(d.take(j + 1).last() == c);
            assert(d[j] == c);
        }
        if ok {
            if c < '0' || c > '9' {
                ok = false;
                proof {
                    assert(!all_digits(d));
                }
            } else {
                let digit = ((c as u32) - ('0' as u32)) as usize;
                match acc.checked_mul(10) {
                    Some(m) => match m.checked_add(digit) {
                        Some(v) => {
                            acc = v;
                            proof {
                                assert(all_digits(d.take(j + 1))) by {
                                    assert forall|i: int| 0 <= i < j + 1 implies '0' <= #[trigger] d.take(
                                        j + 1,
                                    )[i] && d.take(j + 1)[i] <= '9' by {
                                        if i < j {
                                            assert(d.take(j + 1)[i] == d.take(j)[i]);
                                        }
                                    }
                                }
                            }
                        },
                        None => {
                            ok = false;
                            proof {
                                if all_digits(d) {
                                    assert(all_digits(d.take(j + 1))) by {
                                        assert forall|i: int| 0 <= i < j + 1 implies '0' <= #[trigger] d.take(
                                            j + 1,
                                        )[i] && d.take(j + 1)[i] <= '9' by {
                                            assert(d.take(j + 1)[i] == d[i]);
                                        }
                                    }
                                    lemma_decimal_value_grows(d, j + 1);
                                }
                            }
                        },
                    },
                    None => {
                        ok = false;
                        proof {
                            if all_digits(d) {
                                assert(all_digits(d.take(j + 1))) by {
                                    assert forall|i: int| 0 <= i < j + 1 implies '0' <= #[trigger] d.take(
                                        j + 1,
                                    )[i] && d.take(j + 1)[i] <= '9' by {
                                        assert(d.take(j + 1)[i] == d[i]);
                                    }
                                }
                                lemma_decimal_value_grows(d, j + 1);
                                lemma_decimal_value_nonneg(d.take(j));
                            }
                        }
                    },
                }
            }
        } else {
            proof {
                if all_digits(d) {
                    assert(all_digits(d.take(j + 1))) by {
                        assert forall|i: int| 0 <= i < j + 1 implies '0' <= #[trigger] d.take(j + 1)[i]
                            && d.take(j + 1)[i] <= '9' by {
                            assert(d.take(j + 1)[i] == d[i]);
                        }
                    }
                }
                if !all_digits(d.take(j)) && all_digits(d.take(j + 1)) {
                    assert forall|i: int| 0 <= i < j implies '0' <= #[trigger] d.take(j)[i] && d.take(
                        j,
                    )[i] <= '9' by {
                        assert(d.take(j)[i] == d.take(j + 1)[i]);
                    }
                }
            }
        }
        k = k + 1;
    }
    proof {
        assert(d.take(s.len() - start) =~= d);
    }
    if ok {
        Some(acc)
    } else {
        None
    }
}

/// What the server reads of a request head.
#[derive(Debug, Clone)]
pub struct RequestHead {
    pub method: String,
    pub path: String,
    /// `Content-Length`, 0 when absent or unreadable.
    pub content_length: usize,
    pub content_type: String,
    pub authorization: String,
    pub accept: String,
    pub session_id: Option<String>,
}

/// The `n`-th word of the request line, empty when it has fewer words.
pub open spec fn request_word(lines: Seq<Seq<char>>, n: int) -> Seq<char> {
    if words(lines[0]).len() > n {
        words(lines[0])[n]
    } else {
        seq![]
    }
}

/// The text of a header, empty when absent.
pub open spec fn header_text(lines: Seq<Seq<char>>, key: Seq<char>) -> Seq<char> {
    match header_of(lines.skip(1), key) {
        Some(v) => v,
        None => seq![],
    }
}

/// The request head read from its text: method and path from the first line's words, then
/// the headers of the other lines (names compared in lowercase, the last one winning).
pub open spec fn head_ok(text: Seq<char>, h: RequestHead) -> bool {
    let lines = head_lines(text);
    &&& h.method@ == request_word(lines, 0)
    &&& h.path@ == request_word(lines, 1)
    &&& h.content_length == match header_of(lines.skip(1), "content-length"@) {
        Some(v) => match parse_size(v) {
            Some(n) => n as usize,
            None => 0usize,
        },
        None => 0usize,
    }
    &&& h.content_type@ == header_text(lines, "content-type"@)
    &&& h.authorization@ == header_text(lines, "authorization"@)
    &&& h.accept@ == header_text(lines, "accept"@)
    &&& match header_of(lines.skip(1), "mcp-session-id"@) {
        Some(v) => h.session_id matches Some(s) && s@ == v,
        None => h.session_id is None,
    }
}

/// The header a line holds (see `header_field`).
fn parse_header_line(l: &Vec<char>) -> (r: Option<(Vec<char>, Vec<char>)>)
    ensures
        match header_field(l@) {
            Some((n, v)) => r matches Some(p) && p.0@ == n && p.1@ == v,
            None => r is None,
        },
{
    let mut c: usize = 0;
    while c < l.len() && l[c] != ':'
        invariant
            c <= l.len(),
            forall|j: int| 0 <= j < c ==> l@[j] != ':',
        decreases l.len() - c,
    {
        c = c + 1;
    }
    if c == l.len() {
        return None;
    }
    proof {
        let w = choose|i: int|
            0 <= i < l@.len() && l@[i] == ':' && forall|j: int| 0 <= j < i ==> l@[j] != ':';
        assert(w == c);
    }
    let name = sub_chars(l.as_slice(), 0, c);
    let value = sub_chars(l.as_slice(), c + 1, l.len());
    assert(name@ =~= l@.take(c as int));
    assert(value@ =~= l@.skip(c + 1));
    let name_t = trim_chars(name.as_slice());
    let name_l = lower_ascii(&name_t);
    let value_t = trim_chars(value.as_slice());
    Some((name_l, value_t))
}

/// Reads a request head's text (see `head_ok`).
pub fn parse_request_head(text: &str) -> (h: RequestHead)
    ensures
        head_ok(text@, h),
{
    let c = chars_of(text);
    let lines = split_crlf(&c);
    let ghost lv = lines@.map_values(|v: Vec<char>| v@);
    proof {
        lemma_lines_nonempty(c@, 0, 0);
    }
    let first = string_from_chars(lines[0].as_slice());
    let ws = crate::llm_runner::split_words(first.as_str());
    let method = if ws.len() > 0 {
        ws[0].clone()
    } else {
        String::new()
    };
    let path = if ws.len() > 1 {
        ws[1].clone()
    } else {
        String::new()
    };
    let mut content_length: usize = 0;
    let mut content_type = String::new();
    let mut authorization = String::new();
    let mut accept = String::new();
    let mut session_id: Option<String> = None;
    let ghost rest = lv.skip(1);
    let mut k: usize = 1;
    while k < lines.len()
        invariant
            1 <= k <= lines.len(),
            lv == lines@.map_values(|v: Vec<char>| v@),
            rest == lv.skip(1),
            content_length == match header_of(rest.take(k - 1), "content-length"@) {
                Some(v) => match parse_size(v) {
                    Some(n) => n as usize,
                    None => 0usize,
                },
                None => 0usize,
            },
            content_type@ == match header_of(rest.take(k - 1), "content-type"@) {
                Some(v) => v,
                None => Seq::<char>::empty(),
            },
            authorization@ == match header_of(rest.take(k - 1), "authorization"@) {
                Some(v) => v,
                None => Seq::<char>::empty(),
            },
            accept@ == match header_of(rest.take(k - 1), "accept"@) {
                Some(v) => v,
                None => Seq::<char>::empty(),
            },
            match header_of(rest.take(k - 1), "mcp-session-id"@) {
                Some(v) => session_id matches Some(s) && s@ == v,
                None => session_id is None,
            },
        decreases lines.len() - k,
    {
        let ghost t = rest.take(k as int);
        proof {
            assert(t.drop_last() =~= rest.take(k - 1));
            assert(t.last() == lines@[k as int]@);
        }
        match parse_header_line(&lines[k]) {
            Some((name, value)) => {
                let n = string_from_chars(name.as_slice());
                let v = string_from_chars(value.as_slice());
                proof {
                    reveal_strlit("content-length");
                    reveal_strlit("content-type");
                    reveal_strlit("authorization");
                    reveal_strlit("accept");
                    reveal_strlit("mcp-session-id");
                    assert("content-length"@.len() != "content-type"@.len());
                    assert("content-length"@.len() != "authorization"@.len());
                    assert("content-length"@.len() != "accept"@.len());
                    assert("content-length"@[0] != "mcp-session-id"@[0]);
                    assert("content-type"@.len() != "authorization"@.len());
                    assert("content-type"@.len() != "accept"@.len());
                    assert("content-type"@.len() != "mcp-session-id"@.len());
                    assert("authorization"@.len() != "accept"@.len());
                    assert("authorization"@.len() != "mcp-session-id"@.len());
                    assert("accept"@.len() != "mcp-session-id"@.len());
                }
                if str_equals(n.as_str(), "content-length") {
                    content_length = match parse_size_text(&value) {
                        Some(x) => x,
                        None => 0,
                    };
                } else if str_equals(n.as_str(), "content-type") {
                    content_type = v;
                } else if str_equals(n.as_str(), "authorization") {
                    authorization = v;
                } else if str_equals(n.as_str(), "accept") {
                    accept = v;
                } else if str_equals(n.as_str(), "mcp-session-id") {
                    session_id = Some(v);
                }
            },
            None => {},
        }
        k = k + 1;
    }
    proof {
        assert(rest.take(lines.len() - 1) =~= rest);
    }
    RequestHead { method, path, content_length, content_type, authorization, accept, session_id }
}

proof fn lemma_lines_nonempty(s: Seq<char>, start: int, i: int)
    ensures
        lines_from(s, start, i).len() >= 1,
    decreases s.len() - i,
{
    if i < 0 || start < 0 || start > i || i + 1 >= s.len() {
    } else if crlf_at(s, i) {
        lemma_lines_nonempty(s, i + 2, i + 2);
    } else {
        lemma_lines_nonempty(s, start, i + 1);
    }
}

/// Reads a request head's bytes: their text as `String::from_utf8_lossy` gives it, then
/// `parse_request_head`.
pub fn read_request_head(bytes: &[u8]) -> (h: RequestHead)
    ensures
        head_ok(utf8_lossy(bytes@), h),
{
    let text = lossy_text(bytes);
    parse_request_head(text.as_str())
}

/// What a served request is answered with before its body is read: 404 for anything but
/// `POST /mcp`, 401 when a token is configured and not presented as `Bearer {token}`, 413
/// for a body above the limit; else the body length to read.
pub fn admit_request(head: &RequestHead, cfg: &McpConfig) -> (r: Result<usize, (u16, String)>)
    ensures
        !(head.method@ == "POST"@ && head.path@ == "/mcp"@) ==> (r matches Err(e) && e.0 == 404
            && e.1@ == "Not Found: MCP endpoint is POST /mcp"@),
        head.method@ == "POST"@ && head.path@ == "/mcp"@ && trim_ws(cfg.auth_token@).len() > 0
            && head.authorization@ != "Bearer "@ + trim_ws(cfg.auth_token@) ==> (r matches Err(e)
            && e.0 == 401 && e.1@ == "Unauthorized: invalid or missing Bearer token"@),
        head.method@ == "POST"@ && head.path@ == "/mcp"@ && !(trim_ws(cfg.auth_token@).len() > 0
            && head.authorization@ != "Bearer "@ + trim_ws(cfg.auth_token@))
            && head.content_length > MAX_REQUEST_BODY ==> (r matches Err(e) && e.0 == 413 && e.1@
            == "request body too large"@),
        head.method@ == "POST"@ && head.path@ == "/mcp"@ && !(trim_ws(cfg.auth_token@).len() > 0
            && head.authorization@ != "Bearer "@ + trim_ws(cfg.auth_token@))
            && head.content_length <= MAX_REQUEST_BODY ==> r == Ok::<usize, (u16, String)>(
            head.content_length,
        ),
{
    if !(str_equals(head.method.as_str(), "POST") && str_equals(head.path.as_str(), "/mcp")) {
        return Err((404, String::from_str("Not Found: MCP endpoint is POST /mcp")));
    }
    if cfg.has_auth() {
        let tc = chars_of(cfg.auth_token.as_str());
        let tt = trim_chars(tc.as_slice());
        let mut expected = chars_of("Bearer ");
        extend_chars(&mut expected, tt.as_slice());
        let given = chars_of(head.authorization.as_str());
        if !crate::text::chars_equal(given.as_slice(), expected.as_slice()) {
            return Err((401, String::from_str("Unauthorized: invalid or missing Bearer token")));
        }
    }
    if head.content_length > MAX_REQUEST_BODY {
        return Err((413, String::from_str("request body too large")));
    }
    Ok(head.content_length)
}

/// The reason phrase of a status code.
pub open spec fn reason_phrase(status: u16) -> Seq<char> {
    if status == 200 {
        "OK"@
    } else if status == 202 {
        "Accepted"@
    } else if status == 400 {
        "Bad Request"@
    } else if status == 401 {
        "Unauthorized"@
    } else if status == 404 {
        "Not Found"@
    } else if status == 405 {
        "Method Not Allowed"@
    } else if status == 413 {
        "Payload Too Large"@
    } else if status == 500 {
        "Internal Server Error"@
    } else {
        "OK"@
    }
}

/// The reason phrase of a status code (see `reason_phrase`).
pub fn status_text(status: u16) -> (r: &'static str)
    ensures
        r@ == reason_phrase(status),
{
    if status == 200 {
        "OK"
    } else if status == 202 {
        "Accepted"
    } else if status == 400 {
        "Bad Request"
    } else if status == 401 {
        "Unauthorized"
    } else if status == 404 {
        "Not Found"
    } else if status == 405 {
        "Method Not Allowed"
    } else if status == 413 {
        "Payload Too Large"
    } else if status == 500 {
        "Internal Server Error"
    } else {
        "OK"
    }
}

/// A whole HTTP answer: status line, content type, the body's length in UTF-8 bytes, a
/// closing connection, an empty line, then the body.
pub open spec fn http_answer(status: u16, content_type: Seq<char>, body: &str) -> Seq<char> {
    "HTTP/1.1 "@ + decimal(status as nat) + " "@ + reason_phrase(status) + "\r\nContent-Type: "@
        + content_type + "\r\nContent-Length: "@ + decimal(encode_utf8(body@).len())
        + "\r\nConnection: close\r\n\r\n"@ + body@
}

/// The text of an HTTP answer (see `http_answer`).
pub fn http_response(status: u16, content_type: &str, body: &str) -> (r: String)
    ensures
        r@ == http_answer(status, content_type@, body),
{
    let mut v = chars_of("HTTP/1.1 ");
    push_decimal(&mut v, status as u64);
    let sp = chars_of(" ");
    extend_chars(&mut v, sp.as_slice());
    let reason = chars_of(status_text(status));
    extend_chars(&mut v, reason.as_slice());
    let a = chars_of("\r\nContent-Type: ");
    extend_chars(&mut v, a.as_slice());
    let ct = chars_of(content_type);
    extend_chars(&mut v, ct.as_slice());
    let b = chars_of("\r\nContent-Length: ");
    extend_chars(&mut v, b.as_slice());
    let len = body.as_bytes().len();
    push_decimal(&mut v, len as u64);
    let c = chars_of("\r\nConnection: close\r\n\r\n");
    extend_chars(&mut v, c.as_slice());
    let bc = chars_of(body);
    extend_chars(&mut v, bc.as_slice());
    string_from_chars(v.as_slice())
}

/// How the answers to one HTTP request are sent.
#[derive(Debug, Clone, Copy, PartialEq, Eq)]
pub enum ReplyShape {
    /// Only notifications: 202 with an empty body.
    Accepted,
    /// One answer, as a JSON object.
    Single,
    /// Several answers, as a JSON array.
    Batch,
}

/// The shape of the reply for `n` answers.
pub fn reply_shape(n: usize) -> (r: ReplyShape)
    ensures
        n == 0 ==> r == ReplyShape::Accepted,
        n == 1 ==> r == ReplyShape::Single,
        n > 1 ==> r == ReplyShape::Batch,
{
    if n == 0 {
        ReplyShape::Accepted
    } else if n == 1 {
        ReplyShape::Single
    } else {
        ReplyShape::Batch
    }
}

/// The address the server listens on: `{host}:{port}`.
pub fn bind_address(cfg: &McpConfig) -> (r: String)
    ensures
        r@ == cfg.host@ + ":"@ + decimal(cfg.port as nat),
{
    let mut v = chars_of(cfg.host.as_str());
    v.push(':');
    push_decimal(&mut v, cfg.port as u64);
    proof {
        reveal_strlit(":");
    }
    assert(v@ =~= cfg.host@ + ":"@ + decimal(cfg.port as nat));
    string_from_chars(v.as_slice())
}

} // verus!
