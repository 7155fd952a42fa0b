//! Character-level helpers shared by the text processing modules: Unicode
//! classification, conversion between strings and character vectors,
//! whitespace trimming, word splitting and decimal / hexadecimal rendering.
use unicode_categories::UnicodeCategories;
use vstd::prelude::*;

verus! {

// ---------------------------------------------------------------------------
// Unicode classification (std and `unicode_categories`)
// ---------------------------------------------------------------------------

/// Whether `c` has the Unicode `Alphabetic` or a `Numeric` property, as `char::is_alphanumeric` says.
pub uninterp spec fn unicode_alphanumeric(c: char) -> bool;

/// Whether `c` has the Unicode `White_Space` property (what `char::is_whitespace` tests):
/// tab to carriage return, space, next line, no-break space, ogham space mark, the spaces
/// U+2000 to U+200A, line and paragraph separators, narrow no-break space, medium
/// mathematical space and ideographic space.
pub open spec fn unicode_whitespace(c: char) -> bool {
    let u = c as u32;
    (0x9 <= u <= 0xd) || u == 0x20 || u == 0x85 || u == 0xa0 || u == 0x1680 || (0x2000 <= u
        <= 0x200a) || u == 0x2028 || u == 0x2029 || u == 0x202f || u == 0x205f || u == 0x3000
}

/// Whether `c` is in one of the Unicode symbol categories (Sc, Sk, Sm, So).
pub uninterp spec fn unicode_symbol(c: char) -> bool;

/// Whether `c` is in one of the Unicode mark categories (Mc, Me, Mn).
pub uninterp spec fn unicode_mark(c: char) -> bool;

/// Calls `char::is_alphanumeric`; the result is the Unicode property of `c` named
/// `unicode_alphanumeric`, which depends on `c` alone.
#[verifier::external_body]
pub(crate) fn char_is_alphanumeric(c: char) -> (r: bool)
    ensures
        r == unicode_alphanumeric(c),
{
    c.is_alphanumeric()
}

/// Whether `c` is Unicode white space.
pub(crate) fn char_is_whitespace(c: char) -> (r: bool)
    ensures
        r == unicode_whitespace(c),
{
    let u = c as u32;
    (0x9 <= u && u <= 0xd) || u == 0x20 || u == 0x85 || u == 0xa0 || u == 0x1680 || (0x2000 <= u
        && u <= 0x200a) || u == 0x2028 || u == 0x2029 || u == 0x202f || u == 0x205f || u == 0x3000
}

/// Calls `UnicodeCategories::is_symbol` of the `unicode_categories` crate, a lookup of `c` in
/// its symbol tables; the result is named `unicode_symbol`.
#[verifier::external_body]
pub(crate) fn char_is_symbol(c: char) -> (r: bool)
    ensures
        r == unicode_symbol(c),
{
    c.is_symbol()
}

/// Calls `UnicodeCategories::is_mark` of the `unicode_categories` crate, a lookup of `c` in
/// its mark tables; the result is named `unicode_mark`.
#[verifier::external_body]
pub(crate) fn char_is_mark(c: char) -> (r: bool)
    ensures
        r == unicode_mark(c),
{
    c.is_mark()
}

/// ASCII letters and digits.
pub open spec fn ascii_alphanumeric(c: char) -> bool {
    ('a' <= c && c <= 'z') || ('A' <= c && c <= 'Z') || ('0' <= c && c <= '9')
}

/// ASCII punctuation: the printable ASCII characters that are neither letters, digits nor space.
pub open spec fn ascii_punctuation(c: char) -> bool {
    ('!' <= c && c <= '/') || (':' <= c && c <= '@') || ('[' <= c && c <= '`') || ('{' <= c
        && c <= '~')
}

/// Same as `char::is_ascii_alphanumeric`.
pub fn is_ascii_alphanumeric(c: char) -> (r: bool)
    ensures
        r == ascii_alphanumeric(c),
{
    ('a' <= c && c <= 'z') || ('A' <= c && c <= 'Z') || ('0' <= c && c <= '9')
}

/// Same as `char::is_ascii_punctuation`.
pub fn is_ascii_punctuation(c: char) -> (r: bool)
    ensures
        r == ascii_punctuation(c),
{
    ('!' <= c && c <= '/') || (':' <= c && c <= '@') || ('[' <= c && c <= '`') || ('{' <= c
        && c <= '~')
}

// ---------------------------------------------------------------------------
// Strings and character vectors
// ---------------------------------------------------------------------------

/// The characters of `s`, in order.
pub fn chars_of(s: &str) -> (v: Vec<char>)
    ensures
        v@ == s@,
{
    let mut v: Vec<char> = Vec::new();
    for c in it: s.chars()
        invariant
            v@ == it.seq().take(it.index() as int),
    {
        v.push(c);
        assert(it.seq().take(it.index() + 1) =~= it.seq().take(it.index() as int).push(c));
    }
    assert(v@ =~= s@);
    v
}

/// Collects characters into a `String` (`FromIterator<char>` for `String`).
#[verifier::external_body]
pub(crate) fn string_from_chars(v: &[char]) -> (s: String)
    ensures
        s@ == v@,
{
    v.iter().collect()
}

/// Whether two character sequences are equal.
pub fn chars_equal(a: &[char], b: &[char]) -> (r: bool)
    ensures
        r == (a@ == b@),
{
    if a.len() != b.len() {
        return false;
    }
    let mut i: usize = 0;
    while i < a.len()
        invariant
            a.len() == b.len(),
            i <= a.len(),
            forall|k: int| 0 <= k < i ==> a@[k] == b@[k],
        decreases a.len() - i,
    {
        if a[i] != b[i] {
            return false;
        }
        i = i + 1;
    }
    assert(a@ =~= b@);
    true
}

/// Whether `s` reads exactly as the characters `t`.
pub fn str_equals(s: &str, t: &str) -> (r: bool)
    ensures
        r == (s@ == t@),
{
    let a = chars_of(s);
    let b = chars_of(t);
    chars_equal(a.as_slice(), b.as_slice())
}

/// Appends all characters of `src` to `dst`.
pub fn extend_chars(dst: &mut Vec<char>, src: &[char])
    ensures
        final(dst)@ == old(dst)@ + src@,
{
    let mut i: usize = 0;
    while i < src.len()
        invariant
            i <= src.len(),
            dst@ == old(dst)@ + src@.take(i as int),
        decreases src.len() - i,
    {
        dst.push(src[i]);
        i = i + 1;
        assert(src@.take(i as int) =~= src@.take(i - 1) + seq![src@[i - 1]]);
    }
    assert(src@.take(src.len() as int) =~= src@);
}

/// Copies the characters of `s` from `start` (inclusive) to `end` (exclusive).
pub fn sub_chars(s: &[char], start: usize, end: usize) -> (r: Vec<char>)
    requires
        start <= end <= s.len(),
    ensures
        r@ == s@.subrange(start as int, end as int),
{
    let mut r: Vec<char> = Vec::new();
    let mut i: usize = start;
    while i < end
        invariant
            start <= i <= end <= s.len(),
            r@ == s@.subrange(start as int, i as int),
        decreases end - i,
    {
        r.push(s[i]);
        i = i + 1;
        assert(s@.subrange(start as int, i as int) =~= s@.subrange(start as int, i - 1) + seq![
            s@[i - 1],
        ]);
    }
    r
}

// ---------------------------------------------------------------------------
// Trimming
// ---------------------------------------------------------------------------

/// Number of leading characters of `s` that satisfy `p`.
pub open spec fn leading_count(s: Seq<char>, p: spec_fn(char) -> bool) -> nat
    decreases s.len(),
{
    if s.len() == 0 || !p(s[0]) {
        0
    } else {
        1 + leading_count(s.drop_first(), p)
    }
}

/// Number of trailing characters of `s` that satisfy `p`.
pub open spec fn trailing_count(s: Seq<char>, p: spec_fn(char) -> bool) -> nat
    decreases s.len(),
{
    if s.len() == 0 || !p(s.last()) {
        0
    } else {
        1 + trailing_count(s.drop_last(), p)
    }
}

/// `s` without its leading characters that satisfy `p`.
pub open spec fn trim_start_by(s: Seq<char>, p: spec_fn(char) -> bool) -> Seq<char> {
    s.skip(leading_count(s, p) as int)
}

/// `s` without its trailing characters that satisfy `p`.
pub open spec fn trim_end_by(s: Seq<char>, p: spec_fn(char) -> bool) -> Seq<char> {
    s.take(s.len() - trailing_count(s, p))
}

/// Unicode whitespace, as a predicate.
pub open spec fn ws() -> spec_fn(char) -> bool {
    |c: char| unicode_whitespace(c)
}

/// `s` without leading and trailing whitespace, as `str::trim` gives it.
pub open spec fn trim_ws(s: Seq<char>) -> Seq<char> {
    trim_end_by(trim_start_by(s, ws()), ws())
}

pub proof fn lemma_leading_count_bound(s: Seq<char>, p: spec_fn(char) -> bool)
    ensures
        leading_count(s, p) <= s.len(),
        forall|k: int| 0 <= k < leading_count(s, p) ==> p(#[trigger] s[k]),
        leading_count(s, p) < s.len() ==> !p(s[leading_count(s, p) as int]),
    decreases s.len(),
{
    if s.len() > 0 && p(s[0]) {
        lemma_leading_count_bound(s.drop_first(), p);
        assert forall|k: int| 0 <= k < leading_count(s, p) implies p(#[trigger] s[k]) by {
            if k > 0 {
                assert(s[k] == s.drop_first()[k - 1]);
            }
        }
    }
}

pub proof fn lemma_trailing_count_bound(s: Seq<char>, p: spec_fn(char) -> bool)
    ensures
        trailing_count(s, p) <= s.len(),
        forall|k: int| s.len() - trailing_count(s, p) <= k < s.len() ==> p(#[trigger] s[k]),
        trailing_count(s, p) < s.len() ==> !p(s[s.len() - trailing_count(s, p) - 1]),
    decreases s.len(),
{
    if s.len() > 0 && p(s.last()) {
        lemma_trailing_count_bound(s.drop_last(), p);
        assert forall|k: int| s.len() - trailing_count(s, p) <= k < s.len() implies p(
            #[trigger] s[k],
        ) by {
            if k < s.len() - 1 {
                assert(s[k] == s.drop_last()[k]);
            }
        }
    }
}

/// Characterises `leading_count` by the first character that fails `p`.
pub proof fn lemma_leading_count_exact(s: Seq<char>, p: spec_fn(char) -> bool, n: int)
    requires
        0 <= n <= s.len(),
        forall|k: int| 0 <= k < n ==> p(#[trigger] s[k]),
        n < s.len() ==> !p(s[n]),
    ensures
        leading_count(s, p) == n,
    decreases s.len(),
{
    if n > 0 {
        assert(p(s[0]));
        assert forall|k: int| 0 <= k < n - 1 implies p(#[trigger] s.drop_first()[k]) by {
            assert(s.drop_first()[k] == s[k + 1]);
        }
        if n - 1 < s.drop_first().len() {
            assert(s.drop_first()[n - 1] == s[n]);
        }
        lemma_leading_count_exact(s.drop_first(), p, n - 1);
    }
}

/// Characterises `trailing_count` by the last character that fails `p`.
pub proof fn lemma_trailing_count_exact(s: Seq<char>, p: spec_fn(char) -> bool, n: int)
    requires
        0 <= n <= s.len(),
        forall|k: int| s.len() - n <= k < s.len() ==> p(#[trigger] s[k]),
        n < s.len() ==> !p(s[s.len() - n - 1]),
    ensures
        trailing_count(s, p) == n,
    decreases s.len(),
{
    if n > 0 {
        assert(p(s[s.len() - 1]));
        let d = s.drop_last();
        assert forall|k: int| d.len() - (n - 1) <= k < d.len() implies p(#[trigger] d[k]) by {
            assert(d[k] == s[k]);
        }
        if n - 1 < d.len() {
            assert(d[d.len() - (n - 1) - 1] == s[s.len() - n - 1]);
        }
        lemma_trailing_count_exact(d, p, n - 1);
    }
}

/// Position of the first character at or after `from` that is not whitespace.
fn skip_ws_from(s: &[char], from: usize) -> (r: usize)
    requires
        from <= s.len(),
    ensures
        from <= r <= s.len(),
        forall|k: int| from <= k < r ==> unicode_whitespace(#[trigger] s@[k]),
        r < s.len() ==> !unicode_whitespace(s@[r as int]),
{
    let mut i = from;
    while i < s.len() && char_is_whitespace(s[i])
        invariant
            from <= i <= s.len(),
            forall|k: int| from <= k < i ==> unicode_whitespace(#[trigger] s@[k]),
        decreases s.len() - i,
    {
        i = i + 1;
    }
    i
}

/// `s` without leading and trailing Unicode whitespace (`str::trim`).
pub fn trim_chars(s: &[char]) -> (r: Vec<char>)
    ensures
        r@ == trim_ws(s@),
{
    let start = skip_ws_from(s, 0);
    proof {
        lemma_leading_count_exact(s@, ws(), start as int);
    }
    let mut end = s.len();
    while end > start && char_is_whitespace(s[end - 1])
        invariant
            start <= end <= s.len(),
            forall|k: int| end <= k < s.len() ==> unicode_whitespace(#[trigger] s@[k]),
        decreases end,
    {
        end = end - 1;
    }
    let ghost t = s@.skip(start as int);
    proof {
        assert forall|k: int| t.len() - (s.len() - end) <= k < t.len() implies (ws())(
            #[trigger] t[k],
        ) by {
            assert(t[k] == s@[k + start]);
        }
        if s.len() - end < t.len() {
            assert(t[t.len() - (s.len() - end) - 1] == s@[end - 1]);
        }
        lemma_trailing_count_exact(t, ws(), s.len() - end);
        assert(trim_ws(s@) =~= s@.subrange(start as int, end as int));
    }
    sub_chars(s, start, end)
}

/// Whether the string is empty or made of whitespace only.
pub fn is_blank(s: &[char]) -> (r: bool)
    ensures
        r == (trim_ws(s@).len() == 0),
        r == (forall|k: int| 0 <= k < s@.len() ==> unicode_whitespace(#[trigger] s@[k])),
{
    let t = trim_chars(s);
    proof {
        lemma_leading_count_bound(s@, ws());
        let n = leading_count(s@, ws());
        if n == s.len() {
            assert(trim_start_by(s@, ws()).len() == 0);
            assert(trailing_count(trim_start_by(s@, ws()), ws()) == 0);
        } else {
            lemma_trailing_count_bound(trim_start_by(s@, ws()), ws());
            let u = trim_start_by(s@, ws());
            assert(u[0] == s@[n as int]);
            assert(!unicode_whitespace(s@[n as int]));
            if trailing_count(u, ws()) == u.len() {
                assert((ws())(u[0]));
            }
        }
    }
    t.len() == 0
}

// ---------------------------------------------------------------------------
// Words
// ---------------------------------------------------------------------------

/// Length of the run of characters satisfying `p` that starts at `j`, cut at `limit`.
pub open spec fn run_len(s: Seq<char>, j: int, limit: nat, p: spec_fn(char) -> bool) -> nat
    decreases limit,
{
    if limit == 0 || j < 0 || j >= s.len() || !p(s[j]) {
        0
    } else {
        1 + run_len(s, j + 1, (limit - 1) as nat, p)
    }
}

pub proof fn lemma_run_len(s: Seq<char>, j: int, limit: nat, p: spec_fn(char) -> bool)
    requires
        0 <= j <= s.len(),
    ensures
        run_len(s, j, limit, p) <= limit,
        j + run_len(s, j, limit, p) <= s.len(),
        forall|k: int| j <= k < j + run_len(s, j, limit, p) ==> p(#[trigger] s[k]),
        run_len(s, j, limit, p) < limit && j + run_len(s, j, limit, p) < s.len() ==> !p(
            s[j + run_len(s, j, limit, p)],
        ),
    decreases limit,
{
    if !(limit == 0 || j >= s.len() || !p(s[j])) {
        lemma_run_len(s, j + 1, (limit - 1) as nat, p);
    }
}

/// Scans the run of characters satisfying `p` from `j`, at most `limit` of them.
pub fn scan_run(
    s: &[char],
    j: usize,
    limit: usize,
    Ghost(p): Ghost<spec_fn(char) -> bool>,
    pred: impl Fn(char) -> bool,
) -> (r: usize)
    requires
        j <= s.len(),
        forall|c: char| #[trigger] pred.requires((c,)),
        forall|c: char, b: bool| pred.ensures((c,), b) ==> b == p(c),
    ensures
        r == j + run_len(s@, j as int, limit as nat, p),
        r <= s.len(),
{
    let mut k = j;
    proof {
        lemma_run_len(s@, j as int, limit as nat, p);
    }
    while k < s.len() && k - j < limit && pred(s[k])
        invariant
            j <= k <= s.len(),
            k - j <= limit,
            forall|c: char| #[trigger] pred.requires((c,)),
            forall|c: char, b: bool| pred.ensures((c,), b) ==> b == p(c),
            run_len(s@, j as int, limit as nat, p) == (k - j) + run_len(
                s@,
                k as int,
                (limit - (k - j)) as nat,
                p,
            ),
        decreases s.len() - k,
    {
        k = k + 1;
    }
    k
}

/// Whether `c` is not whitespace.
pub fn is_not_whitespace(c: char) -> (b: bool)
    ensures
        b == !unicode_whitespace(c),
{
    !char_is_whitespace(c)
}

/// Non-whitespace, as a predicate.
pub open spec fn not_ws() -> spec_fn(char) -> bool {
    |c: char| !unicode_whitespace(c)
}

/// The maximal runs of non-whitespace characters of `s` from position `i` on, in order.
pub open spec fn words_from(s: Seq<char>, i: int) -> Seq<Seq<char>>
    decreases s.len() - i,
{
    if i < 0 || i >= s.len() {
        seq![]
    } else if unicode_whitespace(s[i]) {
        words_from(s, i + 1)
    } else {
        let n = run_len(s, i, s.len(), not_ws());
        proof {
            lemma_run_len(s, i, s.len(), not_ws());
        }
        if n == 0 {
            seq![]
        } else {
            seq![s.subrange(i, i + n)] + words_from(s, i + n)
        }
    }
}

/// The words of `s` (`str::split_whitespace`).
pub open spec fn words(s: Seq<char>) -> Seq<Seq<char>> {
    words_from(s, 0)
}

/// The words joined with single spaces (`join(" ")`).
pub open spec fn join_spaced(ws: Seq<Seq<char>>) -> Seq<char>
    decreases ws.len(),
{
    if ws.len() == 0 {
        seq![]
    } else if ws.len() == 1 {
        ws[0]
    } else {
        join_spaced(ws.drop_last()) + seq![' '] + ws.last()
    }
}

/// `s` with whitespace runs collapsed to one space and no space at either end.
pub open spec fn squeeze_ws(s: Seq<char>) -> Seq<char> {
    join_spaced(words(s))
}

pub proof fn lemma_join_spaced_push(ws: Seq<Seq<char>>, w: Seq<char>)
    ensures
        join_spaced(ws.push(w)) == if ws.len() == 0 {
            w
        } else {
            join_spaced(ws) + seq![' '] + w
        },
{
    assert(ws.push(w).drop_last() =~= ws);
}

/// Collapses whitespace: the words of `s` joined by single spaces.
pub fn squeeze_whitespace(s: &[char]) -> (r: Vec<char>)
    ensures
        r@ == squeeze_ws(s@),
{
    let mut out: Vec<char> = Vec::new();
    let mut i: usize = 0;
    let ghost mut done: Seq<Seq<char>> = seq![];
    let mut any = false;
    while i < s.len()
        invariant
            i <= s.len(),
            any == (done.len() > 0),
            words(s@) == done + words_from(s@, i as int),
            out@ == join_spaced(done),
        decreases s.len() - i,
    {
        if char_is_whitespace(s[i]) {
            i = i + 1;
        } else {
            let e = scan_run(s, i, s.len(), Ghost(not_ws()), is_not_whitespace);
            proof {
                lemma_run_len(s@, i as int, s.len() as nat, not_ws());
            }
            let w = sub_chars(s, i, e);
            if any {
                out.push(' ');
            }
            any = true;
            extend_chars(&mut out, w.as_slice());
            proof {
                lemma_join_spaced_push(done, w@);
                let old_done = done;
                done = done.push(w@);
                assert(seq![w@] + words_from(s@, e as int) == words_from(s@, i as int));
                assert(words(s@) == done + words_from(s@, e as int)) by {
                    assert(old_done + (seq![w@] + words_from(s@, e as int)) =~= done
                        + words_from(s@, e as int));
                }
            }
            i = e;
        }
    }
    assert(done + words_from(s@, i as int) =~= done);
    out
}

// ---------------------------------------------------------------------------
// Numbers
// ---------------------------------------------------------------------------

/// The digit character for `d` in base 16 (lowercase), or base 10 when `d < 10`.
pub open spec fn digit_char(d: nat) -> char {
    if d < 10 {
        (('0' as u32) + d) as char
    } else {
        (('a' as u32) + (d - 10)) as char
    }
}

/// Decimal rendering of `n`, without leading zeros (`"0"` for zero).
pub open spec fn decimal(n: nat) -> Seq<char>
    decreases n,
{
    if n < 10 {
        seq![digit_char(n)]
    } else {
        decimal(n / 10).push(digit_char(n % 10))
    }
}

/// Lowercase hexadecimal rendering of `n`, without leading zeros (`"0"` for zero).
pub open spec fn hex(n: nat) -> Seq<char>
    decreases n,
{
    if n < 16 {
        seq![digit_char(n)]
    } else {
        hex(n / 16).push(digit_char(n % 16))
    }
}

/// `s` preceded by as many `'0'` as make it at least `width` long.
pub open spec fn zero_pad(s: Seq<char>, width: nat) -> Seq<char> {
    if s.len() >= width {
        s
    } else {
        Seq::new((width - s.len()) as nat, |_i: int| '0') + s
    }
}

fn digit(d: u64) -> (c: char)
    requires
        d < 16,
    ensures
        c == digit_char(d as nat),
{
    if d < 10 {
        ((('0' as u32) + (d as u32)) as u8) as char
    } else {
        ((('a' as u32) + (d as u32 - 10)) as u8) as char
    }
}

/// Appends the decimal rendering of `n`.
pub fn push_decimal(out: &mut Vec<char>, n: u64)
    ensures
        final(out)@ == old(out)@ + decimal(n as nat),
    decreases n,
{
    if n < 10 {
        out.push(digit(n));
    } else {
        push_decimal(out, n / 10);
        out.push(digit(n % 10));
    }
}

/// Appends the lowercase hexadecimal rendering of `n`.
pub fn push_hex(out: &mut Vec<char>, n: u64)
    ensures
        final(out)@ == old(out)@ + hex(n as nat),
    decreases n,
{
    if n < 16 {
        out.push(digit(n));
    } else {
        push_hex(out, n / 16);
        out.push(digit(n % 16));
    }
}

/// Decimal rendering of a signed number, with `-` in front when negative.
pub open spec fn signed_decimal(n: int) -> Seq<char> {
    if n < 0 {
        seq!['-'] + decimal((-n) as nat)
    } else {
        decimal(n as nat)
    }
}

/// Appends the decimal rendering of a signed number.
pub fn push_signed_decimal(out: &mut Vec<char>, n: i64)
    ensures
        final(out)@ == old(out)@ + signed_decimal(n as int),
{
    if n < 0 {
        out.push('-');
        let m: u64 = (0i128 - (n as i128)) as u64;
        push_decimal(out, m);
        assert(out@ =~= old(out)@ + signed_decimal(n as int));
    } else {
        push_decimal(out, n as u64);
    }
}

/// The decimal rendering of `n` as a `String` (`n.to_string()`).
pub fn decimal_string(n: u64) -> (s: String)
    ensures
        s@ == decimal(n as nat),
{
    let mut v: Vec<char> = Vec::new();
    push_decimal(&mut v, n);
    string_from_chars(v.as_slice())
}

/// Appends the lowercase hexadecimal rendering of `n`, zero-padded to `width` (`{:0width$x}`).
pub fn push_hex_padded(out: &mut Vec<char>, n: u64, width: usize)
    ensures
        final(out)@ == old(out)@ + zero_pad(hex(n as nat), width as nat),
{
    let mut h: Vec<char> = Vec::new();
    push_hex(&mut h, n);
    assert(h@ =~= hex(n as nat));
    let ghost start = out@;
    if h.len() < width {
        let mut k: usize = 0;
        let pad = width - h.len();
        while k < pad
            invariant
                k <= pad,
                out@ == start + Seq::new(k as nat, |_i: int| '0'),
            decreases pad - k,
        {
            out.push('0');
            k = k + 1;
            assert(Seq::new(k as nat, |_i: int| '0') =~= Seq::new((k - 1) as nat, |_i: int| '0')
                + seq!['0']);
        }
    }
    extend_chars(out, h.as_slice());
    assert(out@ =~= start + zero_pad(hex(n as nat), width as nat));
}


/// The strings joined with `sep` between each two (`join(sep)`).
pub open spec fn join_with(ws: Seq<Seq<char>>, sep: Seq<char>) -> Seq<char>
    decreases ws.len(),
{
    if ws.len() == 0 {
        seq![]
    } else if ws.len() == 1 {
        ws[0]
    } else {
        join_with(ws.drop_last(), sep) + sep + ws.last()
    }
}

/// The strings of `v` joined with `sep` between each two.
pub fn join_strings(v: &Vec<String>, sep: &str) -> (r: String)
    ensures
        r@ == join_with(v@.map_values(|x: String| x@), sep@),
{
    let ghost views = v@.map_values(|x: String| x@);
    let sc = chars_of(sep);
    let mut out: Vec<char> = Vec::new();
    let mut k: usize = 0;
    while k < v.len()
        invariant
            k <= v.len(),
            views == v@.map_values(|x: String| x@),
            sc@ == sep@,
            out@ == join_with(views.take(k as int), sep@),
        decreases v.len() - k,
    {
        if k > 0 {
            extend_chars(&mut out, sc.as_slice());
        }
        let w = chars_of(v[k].as_str());
        extend_chars(&mut out, w.as_slice());
        proof {
            let t = views.take(k + 1);
            assert(t.drop_last() =~= views.take(k as int));
            assert(t.last() == views[k as int]);
            if k == 0 {
                assert(out@ =~= views[0]);
            }
        }
        k = k + 1;
    }
    assert(views.take(v.len() as int) =~= views);
    string_from_chars(out.as_slice())
}


/// Whether `t` occurs in `s`.
pub open spec fn contains_text(s: Seq<char>, t: Seq<char>) -> bool {
    exists|i: int| 0 <= i && i + t.len() <= s.len() && #[trigger] s.subrange(i, i + t.len()) == t
}

/// Whether `t` occurs in `s` at position `i`.
fn occurs_at(s: &Vec<char>, t: &Vec<char>, i: usize) -> (r: bool)
    requires
        i + t.len() <= s.len(),
    ensures
        r == (s@.subrange(i as int, i + t.len()) == t@),
{
    let mut k: usize = 0;
    while k < t.len()
        invariant
            k <= t.len(),
            i + t.len() <= s.len(),
            forall|q: int| 0 <= q < k ==> s@[i + q] == t@[q],
        decreases t.len() - k,
    {
        if s[i + k] != t[k] {
            assert(s@.subrange(i as int, i + t.len())[k as int] != t@[k as int]);
            return false;
        }
        k = k + 1;
    }
    assert(s@.subrange(i as int, i + t.len()) =~= t@);
    true
}

/// Whether `t` occurs in `s` (`str::contains`).
pub fn str_contains(s: &str, t: &str) -> (r: bool)
    ensures
        r == contains_text(s@, t@),
{
    let sc = chars_of(s);
    let tc = chars_of(t);
    if tc.len() > sc.len() {
        proof {
            if contains_text(s@, t@) {
                let i = choose|i: int|
                    0 <= i && i + t@.len() <= s@.len() && #[trigger] s@.subrange(i, i + t@.len())
                        == t@;
            }
        }
        return false;
    }
    let last = sc.len() - tc.len();
    let mut i: usize = 0;
    while i <= last
        invariant
            tc.len() <= sc.len(),
            last == sc.len() - tc.len(),
            i <= last + 1,
            sc@ == s@,
            tc@ == t@,
            forall|q: int| 0 <= q < i ==> #[trigger] sc@.subrange(q, q + tc@.len()) != tc@,
        decreases last + 1 - i,
    {
        if occurs_at(&sc, &tc, i) {
            return true;
        }
        if i == last {
            return false;
        }
        i = i + 1;
    }
    false
}

} // verus!
