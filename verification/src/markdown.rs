//! Markdown processing: `#tag` and `@mention` extraction, plain-text snippets
//! and HTML rendering.
//!
//! Tags and mentions are found by a hand-written scanner over the characters
//! of the content; HTML rendering is done by `comrak`.
use crate::text::{
    ascii_punctuation, char_is_alphanumeric, char_is_mark, char_is_symbol, char_is_whitespace,
    chars_of, extend_chars, is_ascii_punctuation, leading_count, lemma_leading_count_exact,
    lemma_run_len, run_len, scan_run, squeeze_whitespace, squeeze_ws, string_from_chars, sub_chars,
    trim_start_by, unicode_alphanumeric, unicode_mark, unicode_symbol, unicode_whitespace, ws,
};
use vstd::prelude::*;

verus! {

/// Longest tag, in characters.
pub const MAX_TAG_LENGTH: usize = 100;

/// Longest mention, in characters.
pub const MAX_MENTION_LENGTH: usize = 32;

/// Tags and mentions of one piece of content.
#[derive(Debug, Clone, Default, PartialEq, Eq)]
pub struct ExtractedData {
    pub tags: Vec<String>,
    pub mentions: Vec<String>,
}

/// The character sequences of a list of strings.
pub open spec fn string_views(v: Seq<String>) -> Seq<Seq<char>> {
    v.map_values(|t: String| t@)
}

// ---------------------------------------------------------------------------
// Tags
// ---------------------------------------------------------------------------

/// Characters that may occur in a tag: Unicode letters and digits, symbols, marks,
/// the zero width joiner and `_ - / &`.
pub open spec fn tag_rune(c: char) -> bool {
    unicode_alphanumeric(c) || unicode_symbol(c) || unicode_mark(c) || c == '\u{200D}' || c == '_'
        || c == '-' || c == '/' || c == '&'
}

pub open spec fn tag_rune_pred() -> spec_fn(char) -> bool {
    |c: char| tag_rune(c)
}

/// The tags written in `s` from position `i` on, in order and with repetitions.
///
/// A `#` starts a tag unless the next character is `#` or a space (a heading) or it is the
/// last character. The tag is the run of tag characters after the `#`, at most
/// `MAX_TAG_LENGTH` of them; an empty run is no tag. Scanning resumes after the run.
pub open spec fn tag_occurrences(s: Seq<char>, i: int) -> Seq<Seq<char>>
    decreases s.len() - i,
{
    if i < 0 || i >= s.len() {
        seq![]
    } else if s[i] != '#' {
        tag_occurrences(s, i + 1)
    } else if i + 1 < s.len() && (s[i + 1] == '#' || s[i + 1] == ' ') {
        tag_occurrences(s, i + 1)
    } else if i + 1 >= s.len() {
        seq![]
    } else {
        let n = run_len(s, i + 1, MAX_TAG_LENGTH as nat, tag_rune_pred());
        proof {
            lemma_run_len(s, i + 1, MAX_TAG_LENGTH as nat, tag_rune_pred());
        }
        if n == 0 {
            tag_occurrences(s, i + 1)
        } else {
            seq![s.subrange(i + 1, i + 1 + n)] + tag_occurrences(s, i + 1 + n)
        }
    }
}

/// The tags of `s`: each tag once, in order of first occurrence.
pub open spec fn tags_of(s: Seq<char>) -> Seq<Seq<char>> {
    tag_occurrences(s, 0).remove_duplicates(seq![])
}

/// Whether `c` may occur in a tag.
pub fn is_valid_tag_rune(c: char) -> (r: bool)
    ensures
        r == tag_rune(c),
{
    if char_is_alphanumeric(c) {
        return true;
    }
    if char_is_symbol(c) || char_is_mark(c) {
        return true;
    }
    if c == '\u{200D}' {
        return true;
    }
    c == '_' || c == '-' || c == '/' || c == '&'
}

/// Whether the list of strings holds one that reads as `t`.
pub(crate) fn contains_chars(v: &Vec<String>, t: &String) -> (r: bool)
    ensures
        r == string_views(v@).contains(t@),
{
    let mut k: usize = 0;
    while k < v.len()
        invariant
            k <= v.len(),
            forall|m: int| 0 <= m < k ==> v@[m]@ != t@,
        decreases v.len() - k,
    {
        if v[k] == *t {
            assert(string_views(v@)[k as int] == t@);
            return true;
        }
        k = k + 1;
    }
    proof {
        if string_views(v@).contains(t@) {
            let m = choose|m: int| 0 <= m < string_views(v@).len() && string_views(v@)[m] == t@;
            assert(v@[m]@ == t@);
        }
    }
    false
}

pub proof fn lemma_remove_duplicates_step<A>(t: A, rest: Seq<A>, seen: Seq<A>)
    ensures
        (seq![t] + rest).remove_duplicates(seen) == if seen.contains(t) {
            rest.remove_duplicates(seen)
        } else {
            rest.remove_duplicates(seen.push(t))
        },
{
    assert((seq![t] + rest).skip(1) =~= rest);
    assert((seq![t] + rest)[0] == t);
    assert(seen + seq![t] =~= seen.push(t));
}

/// Appends `t` unless it is there already; keeps the list in step with `remove_duplicates`.
pub(crate) fn push_unique(tags: &mut Vec<String>, t: String, Ghost(rest): Ghost<Seq<Seq<char>>>)
    ensures
        (seq![t@] + rest).remove_duplicates(string_views(old(tags)@)) == rest.remove_duplicates(
            string_views(final(tags)@),
        ),
        string_views(final(tags)@) == if string_views(old(tags)@).contains(t@) {
            string_views(old(tags)@)
        } else {
            string_views(old(tags)@).push(t@)
        },
{
    proof {
        lemma_remove_duplicates_step(t@, rest, string_views(tags@));
    }
    if !contains_chars(tags, &t) {
        let ghost tv = t@;
        tags.push(t);
        assert(string_views(tags@) =~= string_views(old(tags)@).push(tv));
    }
}

/// All `#tag`s of the content, each once, in order of first occurrence.
///
/// A `#` followed by `#` or a space starts a heading, not a tag.
pub fn extract_tags(content: &str) -> (r: Vec<String>)
    ensures
        string_views(r@) == tags_of(content@),
{
    let chars = chars_of(content);
    let n = chars.len();
    let mut tags: Vec<String> = Vec::new();
    let mut i: usize = 0;
    assert(string_views(tags@) =~= seq![]);
    while i < n
        invariant
            n == chars.len(),
            chars@ == content@,
            i <= n,
            tags_of(content@) == tag_occurrences(chars@, i as int).remove_duplicates(
                string_views(tags@),
            ),
        decreases n - i,
    {
        if chars[i] != '#' {
            i = i + 1;
        } else if i + 1 < n && (chars[i + 1] == '#' || chars[i + 1] == ' ') {
            i = i + 1;
        } else if i + 1 >= n {
            i = n;
        } else {
            let j = scan_run(
                chars.as_slice(),
                i + 1,
                MAX_TAG_LENGTH,
                Ghost(tag_rune_pred()),
                is_valid_tag_rune,
            );
            if j > i + 1 {
                let tag = sub_chars(chars.as_slice(), i + 1, j);
                let t = string_from_chars(tag.as_slice());
                push_unique(&mut tags, t, Ghost(tag_occurrences(chars@, j as int)));
            }
            i = j;
        }
    }
    tags
}

// ---------------------------------------------------------------------------
// Mentions
// ---------------------------------------------------------------------------

/// Characters that may occur in a mention: Unicode letters and digits and `-`.
pub open spec fn mention_rune(c: char) -> bool {
    unicode_alphanumeric(c) || c == '-'
}

pub open spec fn mention_rune_pred() -> spec_fn(char) -> bool {
    |c: char| mention_rune(c)
}

/// Characters that are neither letters, digits nor whitespace (punctuation and symbols).
pub open spec fn symbol_punct(c: char) -> bool {
    !unicode_alphanumeric(c) && !unicode_whitespace(c)
}

/// Characters after which an `@` starts a mention: whitespace, punctuation and symbols.
pub open spec fn mention_boundary(c: char) -> bool {
    unicode_whitespace(c) || ascii_punctuation(c) || symbol_punct(c)
}

/// Whether some character of `m` is a Unicode letter or digit.
pub open spec fn has_alphanumeric(m: Seq<char>) -> bool {
    exists|k: int| 0 <= k < m.len() && unicode_alphanumeric(#[trigger] m[k])
}

/// The mentions written in `s` from position `i` on, in order and with repetitions.
///
/// An `@` at the start or after a boundary character starts a mention (so the `@` of an
/// e-mail address does not); the mention is the run of mention characters after it, at most
/// `MAX_MENTION_LENGTH`, and counts only if it holds a letter or digit.
pub open spec fn mention_occurrences(s: Seq<char>, i: int) -> Seq<Seq<char>>
    decreases s.len() - i,
{
    if i < 0 || i >= s.len() {
        seq![]
    } else if s[i] != '@' {
        mention_occurrences(s, i + 1)
    } else if i > 0 && !mention_boundary(s[i - 1]) {
        mention_occurrences(s, i + 1)
    } else {
        let n = run_len(s, i + 1, MAX_MENTION_LENGTH as nat, mention_rune_pred());
        proof {
            lemma_run_len(s, i + 1, MAX_MENTION_LENGTH as nat, mention_rune_pred());
        }
        let m = s.subrange(i + 1, i + 1 + n);
        if n > 0 && has_alphanumeric(m) {
            seq![m] + mention_occurrences(s, i + 1 + n)
        } else {
            mention_occurrences(s, i + 1 + n)
        }
    }
}

/// The mentions of `s`: each once, in order of first occurrence.
pub open spec fn mentions_of(s: Seq<char>) -> Seq<Seq<char>> {
    mention_occurrences(s, 0).remove_duplicates(seq![])
}

/// Whether `c` may occur in a mention.
pub fn is_valid_mention_rune(c: char) -> (r: bool)
    ensures
        r == mention_rune(c),
{
    char_is_alphanumeric(c) || c == '-'
}

/// Whether `c` is neither a letter, a digit nor whitespace.
pub fn is_symbol_punct(c: char) -> (r: bool)
    ensures
        r == symbol_punct(c),
{
    !char_is_alphanumeric(c) && !char_is_whitespace(c)
}

/// Whether an `@` after `c` starts a mention.
pub fn is_mention_boundary(c: char) -> (r: bool)
    ensures
        r == mention_boundary(c),
{
    char_is_whitespace(c) || is_ascii_punctuation(c) || is_symbol_punct(c)
}

fn any_alphanumeric(m: &Vec<char>) -> (r: bool)
    ensures
        r == has_alphanumeric(m@),
{
    let mut k: usize = 0;
    while k < m.len()
        invariant
            k <= m.len(),
            forall|q: int| 0 <= q < k ==> !unicode_alphanumeric(#[trigger] m@[q]),
        decreases m.len() - k,
    {
        if char_is_alphanumeric(m[k]) {
            return true;
        }
        k = k + 1;
    }
    false
}

/// All `@mention`s of the content, each once, in order of first occurrence.
///
/// An `@` preceded by a letter or digit (as in an e-mail address) is not a mention.
pub fn extract_mentions(content: &str) -> (r: Vec<String>)
    ensures
        string_views(r@) == mentions_of(content@),
{
    let chars = chars_of(content);
    let n = chars.len();
    let mut mentions: Vec<String> = Vec::new();
    let mut i: usize = 0;
    assert(string_views(mentions@) =~= seq![]);
    while i < n
        invariant
            n == chars.len(),
            chars@ == content@,
            i <= n,
            mentions_of(content@) == mention_occurrences(chars@, i as int).remove_duplicates(
                string_views(mentions@),
            ),
        decreases n - i,
    {
        if chars[i] != '@' {
            i = i + 1;
        } else if i > 0 && !is_mention_boundary(chars[i - 1]) {
            i = i + 1;
        } else {
            let j = scan_run(
                chars.as_slice(),
                i + 1,
                MAX_MENTION_LENGTH,
                Ghost(mention_rune_pred()),
                is_valid_mention_rune,
            );
            let m = sub_chars(chars.as_slice(), i + 1, j);
            if j > i + 1 && any_alphanumeric(&m) {
                let t = string_from_chars(m.as_slice());
                push_unique(&mut mentions, t, Ghost(mention_occurrences(chars@, j as int)));
            }
            i = j;
        }
    }
    mentions
}

/// The tags and mentions of the content.
pub fn extract_all(content: &str) -> (r: ExtractedData)
    ensures
        string_views(r.tags@) == tags_of(content@),
        string_views(r.mentions@) == mentions_of(content@),
{
    ExtractedData { tags: extract_tags(content), mentions: extract_mentions(content) }
}

} // verus!

verus! {

// ---------------------------------------------------------------------------
// Snippets
// ---------------------------------------------------------------------------

/// Line break, as a predicate on characters.
pub open spec fn not_newline() -> spec_fn(char) -> bool {
    |c: char| c != '\n'
}

/// Heading, list and quote markers removed from the start of a line.
pub open spec fn line_marker(c: char) -> bool {
    c == '#' || c == '-' || c == '*' || c == '+' || c == '>'
}

pub open spec fn line_marker_pred() -> spec_fn(char) -> bool {
    |c: char| line_marker(c)
}

/// A line without its carriage return, as `str::lines` gives it.
pub open spec fn strip_cr(l: Seq<char>) -> Seq<char> {
    if l.len() > 0 && l.last() == '\r' {
        l.drop_last()
    } else {
        l
    }
}

/// A line with leading whitespace, then leading markers, then whitespace again removed.
pub open spec fn clean_line(l: Seq<char>) -> Seq<char> {
    trim_start_by(trim_start_by(trim_start_by(l, ws()), line_marker_pred()), ws())
}

/// The cleaned lines of `s` from position `i` on, each followed by a space.
///
/// Lines are split at `\n` and lose a trailing `\r`; a final empty line (after a last `\n`,
/// or of the empty string) is not a line, as with `str::lines`.
pub open spec fn cleaned_lines_from(s: Seq<char>, i: int) -> Seq<char>
    decreases s.len() - i,
{
    if i < 0 || i > s.len() {
        seq![]
    } else {
        let n = run_len(s, i, s.len(), not_newline());
        proof {
            lemma_run_len(s, i, s.len(), not_newline());
        }
        let piece = s.subrange(i, i + n);
        if i + n >= s.len() {
            if n == 0 {
                seq![]
            } else {
                clean_line(strip_cr(piece)).push(' ')
            }
        } else {
            clean_line(strip_cr(piece)).push(' ') + cleaned_lines_from(s, i + n + 1)
        }
    }
}

/// Plain text of markdown content: markers at line starts removed, whitespace collapsed.
pub open spec fn stripped(s: Seq<char>) -> Seq<char> {
    squeeze_ws(cleaned_lines_from(s, 0))
}

/// Plain-text snippet: the stripped text, cut at `max_len` characters with an ellipsis.
pub open spec fn snippet(s: Seq<char>, max_len: nat) -> Seq<char> {
    let p = stripped(s);
    if p.len() <= max_len {
        p
    } else {
        p.take(max_len as int).push('\u{2026}')
    }
}

/// Whether `c` is a heading, list or quote marker.
pub fn is_line_marker(c: char) -> (r: bool)
    ensures
        r == line_marker(c),
{
    c == '#' || c == '-' || c == '*' || c == '+' || c == '>'
}

fn is_not_newline(c: char) -> (r: bool)
    ensures
        r == (c != '\n'),
{
    c != '\n'
}

/// Index of the first character of `v` at or after `from` for which `pred` fails.
fn skip_while(v: &Vec<char>, from: usize, Ghost(p): Ghost<spec_fn(char) -> bool>, pred: impl Fn(
    char,
) -> bool) -> (r: usize)
    requires
        from <= v.len(),
        forall|c: char| #[trigger] pred.requires((c,)),
        forall|c: char, b: bool| pred.ensures((c,), b) ==> b == p(c),
    ensures
        from <= r <= v.len(),
        leading_count(v@.skip(from as int), p) == r - from,
{
    let r = scan_run(v.as_slice(), from, v.len(), Ghost(p), pred);
    proof {
        lemma_run_len(v@, from as int, v.len() as nat, p);
        let t = v@.skip(from as int);
        assert forall|k: int| 0 <= k < r - from implies p(#[trigger] t[k]) by {
            assert(t[k] == v@[k + from]);
        }
        if r - from < t.len() {
            assert(t[r - from] == v@[r as int]);
        }
        lemma_leading_count_exact(t, p, r - from);
    }
    r
}

/// A line with its leading whitespace, markers and whitespace again removed.
fn clean_line_chars(l: &Vec<char>) -> (r: Vec<char>)
    ensures
        r@ == clean_line(l@),
{
    let a = skip_while(l, 0, Ghost(ws()), is_whitespace_char);
    let b = skip_while(l, a, Ghost(line_marker_pred()), is_line_marker);
    let c = skip_while(l, b, Ghost(ws()), is_whitespace_char);
    proof {
        assert(l@.skip(0) =~= l@);
        let t1 = trim_start_by(l@, ws());
        assert(t1 =~= l@.skip(a as int));
        let t2 = trim_start_by(t1, line_marker_pred());
        assert(l@.skip(b as int) =~= t2);
        assert(l@.skip(c as int) =~= trim_start_by(t2, ws()));
    }
    sub_chars(l.as_slice(), c, l.len())
}

fn is_whitespace_char(c: char) -> (r: bool)
    ensures
        r == (ws())(c),
{
    char_is_whitespace(c)
}

/// Plain text of markdown content: for each line, leading whitespace and heading, list and
/// quote markers removed; then whitespace collapsed to single spaces.
pub fn strip_markdown(content: &str) -> (r: String)
    ensures
        r@ == stripped(content@),
{
    let s = chars_of(content);
    let n = s.len();
    let mut out: Vec<char> = Vec::new();
    let mut i: usize = 0;
    while i < n
        invariant
            n == s.len(),
            i <= n,
            cleaned_lines_from(s@, 0) == out@ + cleaned_lines_from(s@, i as int),
        decreases n - i,
    {
        let k = scan_run(s.as_slice(), i, n, Ghost(not_newline()), is_not_newline);
        proof {
            lemma_run_len(s@, i as int, n as nat, not_newline());
        }
        let mut piece = sub_chars(s.as_slice(), i, k);
        if piece.len() > 0 && piece[piece.len() - 1] == '\r' {
            piece.pop();
        }
        assert(piece@ == strip_cr(s@.subrange(i as int, k as int)));
        let cleaned = clean_line_chars(&piece);
        let ghost before = out@;
        extend_chars(&mut out, cleaned.as_slice());
        out.push(' ');
        if k < n {
            assert(cleaned_lines_from(s@, i as int) == cleaned@.push(' ') + cleaned_lines_from(
                s@,
                k + 1,
            ));
            assert(out@ + cleaned_lines_from(s@, k + 1) =~= before + cleaned_lines_from(
                s@,
                i as int,
            ));
            i = k + 1;
        } else {
            assert(k > i);
            assert(cleaned_lines_from(s@, i as int) == cleaned@.push(' '));
            assert(cleaned_lines_from(s@, n as int) =~= seq![]);
            assert(out@ + cleaned_lines_from(s@, n as int) =~= before + cleaned_lines_from(
                s@,
                i as int,
            ));
            i = n;
        }
    }
    assert(cleaned_lines_from(s@, i as int) =~= seq![]);
    assert(out@ =~= cleaned_lines_from(s@, 0));
    let squeezed = squeeze_whitespace(out.as_slice());
    string_from_chars(squeezed.as_slice())
}

/// The first `max_len` characters of the text, followed by `…` when it was longer.
pub fn truncate_with_ellipsis(plain: &Vec<char>, max_len: usize) -> (r: Vec<char>)
    ensures
        r@ == if plain@.len() <= max_len {
            plain@
        } else {
            plain@.take(max_len as int).push('\u{2026}')
        },
{
    if plain.len() <= max_len {
        sub_chars(plain.as_slice(), 0, plain.len())
    } else {
        let mut t = sub_chars(plain.as_slice(), 0, max_len);
        t.push('\u{2026}');
        t
    }
}

/// Plain-text snippet of markdown content: the stripped text, cut at `max_len` characters
/// and then followed by `…` when it was longer.
pub fn generate_snippet(content: &str, max_len: usize) -> (r: String)
    ensures
        r@ == snippet(content@, max_len as nat),
{
    let plain = strip_markdown(content);
    let chars = chars_of(plain.as_str());
    let t = truncate_with_ellipsis(&chars, max_len);
    assert(chars@.subrange(0, chars@.len() as int) =~= chars@);
    string_from_chars(t.as_slice())
}

} // verus!

verus! {

// ---------------------------------------------------------------------------
// HTML rendering
// ---------------------------------------------------------------------------

/// The options that HTML rendering is run with.
#[derive(Debug, Clone, Copy, PartialEq, Eq)]
pub struct RenderOptions {
    pub strikethrough: bool,
    pub table: bool,
    pub autolink: bool,
    pub tasklist: bool,
    pub hardbreaks: bool,
    pub github_pre_lang: bool,
    pub escape: bool,
}

/// The HTML that `comrak` renders for `md` under the given flags (strikethrough, table,
/// autolink, tasklist, hard breaks, GitHub `pre` language, escape), other options default.
pub uninterp spec fn comrak_html(
    md: Seq<char>,
    strikethrough: bool,
    table: bool,
    autolink: bool,
    tasklist: bool,
    hardbreaks: bool,
    github_pre_lang: bool,
    escape: bool,
) -> Seq<char>;

/// Calls `comrak::markdown_to_html` with default options but for the flags of `o`, copied
/// one for one into `Options`. The result is named `comrak_html` of the text and the flags.
#[verifier::external_body]
fn comrak_markdown_to_html(md: &str, o: &RenderOptions) -> (r: String)
    ensures
        r@ == comrak_html(
            md@,
            o.strikethrough,
            o.table,
            o.autolink,
            o.tasklist,
            o.hardbreaks,
            o.github_pre_lang,
            o.escape,
        ),
{
    let mut opts = comrak::Options::default();
    opts.extension.strikethrough = o.strikethrough;
    opts.extension.table = o.table;
    opts.extension.autolink = o.autolink;
    opts.extension.tasklist = o.tasklist;
    opts.render.hardbreaks = o.hardbreaks;
    opts.render.github_pre_lang = o.github_pre_lang;
    opts.render.escape = o.escape;
    comrak::markdown_to_html(md, &opts)
}

/// GitHub-flavoured options: strikethrough, tables, autolinks and task lists on, soft
/// breaks kept, `lang` on `pre`, raw HTML passed through.
pub fn render_options() -> (o: RenderOptions)
    ensures
        o == (RenderOptions {
            strikethrough: true,
            table: true,
            autolink: true,
            tasklist: true,
            hardbreaks: false,
            github_pre_lang: true,
            escape: false,
        }),
{
    RenderOptions {
        strikethrough: true,
        table: true,
        autolink: true,
        tasklist: true,
        hardbreaks: false,
        github_pre_lang: true,
        escape: false,
    }
}

/// Markdown rendered to HTML with the GitHub-flavoured `render_options`.
pub fn render_html(content: &str) -> (r: String)
    ensures
        r@ == comrak_html(content@, true, true, true, true, false, true, false),
{
    let o = render_options();
    comrak_markdown_to_html(content, &o)
}

// ---------------------------------------------------------------------------
// Laws
// ---------------------------------------------------------------------------

/// Removing duplicates keeps exactly the elements that occur in the input or in `seen`, and,
/// when `seen` has none, leaves no two equal elements.
pub proof fn lemma_remove_duplicates_no_dup<A>(s: Seq<A>, seen: Seq<A>)
    requires
        seen.no_duplicates(),
    ensures
        s.remove_duplicates(seen).no_duplicates(),
        forall|x: A| #[trigger] s.remove_duplicates(seen).contains(x) <==> (s.contains(x)
            || seen.contains(x)),
    decreases s.len(),
{
    if s.len() > 0 {
        let next = if seen.contains(s[0]) {
            seen
        } else {
            seen + seq![s[0]]
        };
        assert(next.no_duplicates()) by {
            if !seen.contains(s[0]) {
                assert forall|i: int, j: int|
                    0 <= i < next.len() && 0 <= j < next.len() && i != j implies next[i]
                    != next[j] by {
                    if i == seen.len() {
                        assert(next[j] == seen[j]);
                    } else if j == seen.len() {
                        assert(next[i] == seen[i]);
                    }
                }
            }
        }
        lemma_remove_duplicates_no_dup(s.skip(1), next);
        assert forall|x: A| #[trigger] s.remove_duplicates(seen).contains(x) <==> (s.contains(x)
            || seen.contains(x)) by {
            if s.contains(x) && !seen.contains(x) && x != s[0] {
                let k = choose|k: int| 0 <= k < s.len() && s[k] == x;
                assert(s.skip(1)[k - 1] == x);
            }
            if s.skip(1).contains(x) {
                let k = choose|k: int| 0 <= k < s.skip(1).len() && s.skip(1)[k] == x;
                assert(s[k + 1] == x);
            }
            if next.contains(x) && !seen.contains(x) {
                assert(x == s[0]);
            }
            if x == s[0] {
                assert(s[0] == s[0]);
                assert(s.contains(x));
                assert(next.contains(x)) by {
                    if !seen.contains(s[0]) {
                        assert(next[seen.len() as int] == x);
                    }
                }
            }
            if seen.contains(x) {
                let k = choose|k: int| 0 <= k < seen.len() && seen[k] == x;
                assert(next[k] == x);
            }
        }
    }
}

/// A tag as the scanner finds it: non-empty, at most `MAX_TAG_LENGTH` characters, made of
/// tag characters only.
pub open spec fn well_formed_tag(t: Seq<char>) -> bool {
    &&& 0 < t.len() <= MAX_TAG_LENGTH
    &&& forall|q: int| 0 <= q < t.len() ==> tag_rune(#[trigger] t[q])
}

/// A mention as the scanner finds it: non-empty, at most `MAX_MENTION_LENGTH` characters,
/// made of mention characters and holding a letter or digit.
pub open spec fn well_formed_mention(m: Seq<char>) -> bool {
    &&& 0 < m.len() <= MAX_MENTION_LENGTH
    &&& has_alphanumeric(m)
    &&& forall|q: int| 0 <= q < m.len() ==> mention_rune(#[trigger] m[q])
}

proof fn lemma_cons_all<A>(h: A, rest: Seq<A>, p: spec_fn(A) -> bool)
    requires
        p(h),
        forall|k: int| 0 <= k < rest.len() ==> p(#[trigger] rest[k]),
    ensures
        forall|k: int| 0 <= k < (seq![h] + rest).len() ==> p(#[trigger] (seq![h] + rest)[k]),
{
    assert forall|k: int| 0 <= k < (seq![h] + rest).len() implies p(
        #[trigger] (seq![h] + rest)[k],
    ) by {
        if k > 0 {
            assert((seq![h] + rest)[k] == rest[k - 1]);
        }
    }
}

/// Every tag found from position `i` is well formed.
pub proof fn lemma_tag_occurrences_wf(s: Seq<char>, i: int)
    ensures
        forall|k: int|
            0 <= k < tag_occurrences(s, i).len() ==> well_formed_tag(
                #[trigger] tag_occurrences(s, i)[k],
            ),
    decreases s.len() - i,
{
    if i < 0 || i >= s.len() {
    } else if s[i] != '#' {
        lemma_tag_occurrences_wf(s, i + 1);
        assert(tag_occurrences(s, i) == tag_occurrences(s, i + 1));
    } else if i + 1 < s.len() && (s[i + 1] == '#' || s[i + 1] == ' ') {
        lemma_tag_occurrences_wf(s, i + 1);
        assert(tag_occurrences(s, i) == tag_occurrences(s, i + 1));
    } else if i + 1 >= s.len() {
    } else {
        let n = run_len(s, i + 1, MAX_TAG_LENGTH as nat, tag_rune_pred());
        lemma_run_len(s, i + 1, MAX_TAG_LENGTH as nat, tag_rune_pred());
        if n == 0 {
            lemma_tag_occurrences_wf(s, i + 1);
            assert(tag_occurrences(s, i) == tag_occurrences(s, i + 1));
        } else {
            lemma_tag_occurrences_wf(s, i + 1 + n);
            assert(well_formed_tag(s.subrange(i + 1, i + 1 + n)));
            let t = s.subrange(i + 1, i + 1 + n);
            assert forall|q: int| 0 <= q < t.len() implies tag_rune(#[trigger] t[q]) by {
                assert(t[q] == s[i + 1 + q]);
                assert((tag_rune_pred())(s[i + 1 + q]));
            }
            let rest = tag_occurrences(s, i + 1 + n);
            let occ = tag_occurrences(s, i);
            assert(occ == seq![t] + rest);
            lemma_cons_all(t, rest, |x: Seq<char>| well_formed_tag(x));
            assert forall|k: int| 0 <= k < occ.len() implies well_formed_tag(#[trigger] occ[k]) by {
                assert((|x: Seq<char>| well_formed_tag(x))((seq![t] + rest)[k]));
            }
        }
    }
}

/// Every mention found from position `i` is well formed.
pub proof fn lemma_mention_occurrences_wf(s: Seq<char>, i: int)
    ensures
        forall|k: int|
            0 <= k < mention_occurrences(s, i).len() ==> well_formed_mention(
                #[trigger] mention_occurrences(s, i)[k],
            ),
    decreases s.len() - i,
{
    if i < 0 || i >= s.len() {
    } else if s[i] != '@' {
        lemma_mention_occurrences_wf(s, i + 1);
        assert(mention_occurrences(s, i) == mention_occurrences(s, i + 1));
    } else if i > 0 && !mention_boundary(s[i - 1]) {
        lemma_mention_occurrences_wf(s, i + 1);
        assert(mention_occurrences(s, i) == mention_occurrences(s, i + 1));
    } else {
        let n = run_len(s, i + 1, MAX_MENTION_LENGTH as nat, mention_rune_pred());
        lemma_run_len(s, i + 1, MAX_MENTION_LENGTH as nat, mention_rune_pred());
        lemma_mention_occurrences_wf(s, i + 1 + n);
        let m = s.subrange(i + 1, i + 1 + n);
        assert forall|q: int| 0 <= q < m.len() implies mention_rune(#[trigger] m[q]) by {
            assert(m[q] == s[i + 1 + q]);
            assert((mention_rune_pred())(s[i + 1 + q]));
        }
        if !(n > 0 && has_alphanumeric(m)) {
            assert(mention_occurrences(s, i) == mention_occurrences(s, i + 1 + n));
        } else {
            assert(well_formed_mention(m));
            let rest = mention_occurrences(s, i + 1 + n);
            let occ = mention_occurrences(s, i);
            assert(occ == seq![m] + rest);
            lemma_cons_all(m, rest, |x: Seq<char>| well_formed_mention(x));
            assert forall|k: int| 0 <= k < occ.len() implies well_formed_mention(
                #[trigger] occ[k],
            ) by {
                assert((|x: Seq<char>| well_formed_mention(x))((seq![m] + rest)[k]));
            }
        }
    }
}

/// Law: the tags extracted from any content are distinct; each is non-empty, at most
/// `MAX_TAG_LENGTH` characters, made of tag characters; and a string is among them exactly
/// when it is written as a tag somewhere in the content.
pub proof fn law_tags_well_formed(s: Seq<char>)
    ensures
        tags_of(s).no_duplicates(),
        forall|t: Seq<char>| #[trigger] tags_of(s).contains(t) <==> tag_occurrences(
            s,
            0,
        ).contains(t),
        forall|k: int| 0 <= k < tags_of(s).len() ==> well_formed_tag(#[trigger] tags_of(s)[k]),
{
    let occ = tag_occurrences(s, 0);
    lemma_remove_duplicates_no_dup(occ, seq![]);
    lemma_tag_occurrences_wf(s, 0);
    assert forall|k: int| 0 <= k < tags_of(s).len() implies well_formed_tag(
        #[trigger] tags_of(s)[k],
    ) by {
        let t = tags_of(s)[k];
        assert(tags_of(s).contains(t));
        assert(occ.contains(t));
        let j = choose|j: int| 0 <= j < occ.len() && occ[j] == t;
        assert(occ[j] == t);
    }
}

/// Law: the mentions extracted from any content are distinct; each is non-empty, at most
/// `MAX_MENTION_LENGTH` characters, made of mention characters and holds a letter or digit;
/// and a string is among them exactly when it is written as a mention in the content.
pub proof fn law_mentions_well_formed(s: Seq<char>)
    ensures
        mentions_of(s).no_duplicates(),
        forall|t: Seq<char>| #[trigger] mentions_of(s).contains(t) <==> mention_occurrences(
            s,
            0,
        ).contains(t),
        forall|k: int|
            0 <= k < mentions_of(s).len() ==> well_formed_mention(#[trigger] mentions_of(s)[k]),
{
    let occ = mention_occurrences(s, 0);
    lemma_remove_duplicates_no_dup(occ, seq![]);
    lemma_mention_occurrences_wf(s, 0);
    assert forall|k: int| 0 <= k < mentions_of(s).len() implies well_formed_mention(
        #[trigger] mentions_of(s)[k],
    ) by {
        let m = mentions_of(s)[k];
        assert(mentions_of(s).contains(m));
        assert(occ.contains(m));
        let j = choose|j: int| 0 <= j < occ.len() && occ[j] == m;
        assert(occ[j] == m);
    }
}

/// `t` is written as a tag at position `p` of `s`: a `#` there, `t` right after it.
pub open spec fn tag_written_at(s: Seq<char>, p: int, t: Seq<char>) -> bool {
    &&& 0 <= p
    &&& p + 1 + t.len() <= s.len()
    &&& s[p] == '#'
    &&& s.subrange(p + 1, p + 1 + t.len()) == t
}

/// `m` is written as a mention at position `p` of `s`: an `@` there, at the start or after a
/// boundary character, and `m` right after it.
pub open spec fn mention_written_at(s: Seq<char>, p: int, m: Seq<char>) -> bool {
    &&& 0 <= p
    &&& p + 1 + m.len() <= s.len()
    &&& s[p] == '@'
    &&& (p == 0 || mention_boundary(s[p - 1]))
    &&& s.subrange(p + 1, p + 1 + m.len()) == m
}

/// Every one of `occ` is written as a tag somewhere in `s`.
pub open spec fn all_tags_written(s: Seq<char>, occ: Seq<Seq<char>>) -> bool {
    forall|k: int| 0 <= k < occ.len() ==> #[trigger] tag_written(s, occ[k])
}

/// `x` is written as a tag at some position of `s`.
pub open spec fn tag_written(s: Seq<char>, x: Seq<char>) -> bool {
    exists|p: int| #[trigger] tag_written_at(s, p, x)
}

/// A tag written at `p` followed by tags written somewhere: all are written.
proof fn lemma_cons_tags_written(s: Seq<char>, p: int, x: Seq<char>, rest: Seq<Seq<char>>)
    requires
        tag_written_at(s, p, x),
        all_tags_written(s, rest),
    ensures
        all_tags_written(s, seq![x] + rest),
{
    let occ = seq![x] + rest;
    assert(tag_written(s, x));
    assert forall|k: int| 0 <= k < occ.len() implies #[trigger] tag_written(s, occ[k]) by {
        if k > 0 {
            assert(occ[k] == rest[k - 1]);
        }
    }
}

/// Every tag found from position `i` is written after a `#` of `s`.
pub proof fn lemma_tag_occurrences_written(s: Seq<char>, i: int)
    ensures
        all_tags_written(s, tag_occurrences(s, i)),
    decreases s.len() - i,
{
    if i < 0 || i >= s.len() {
        assert(tag_occurrences(s, i).len() == 0);
    } else if s[i] != '#' {
        lemma_tag_occurrences_written(s, i + 1);
        assert(tag_occurrences(s, i) == tag_occurrences(s, i + 1));
    } else if i + 1 < s.len() && (s[i + 1] == '#' || s[i + 1] == ' ') {
        lemma_tag_occurrences_written(s, i + 1);
        assert(tag_occurrences(s, i) == tag_occurrences(s, i + 1));
    } else if i + 1 >= s.len() {
        assert(tag_occurrences(s, i).len() == 0);
    } else {
        let n = run_len(s, i + 1, MAX_TAG_LENGTH as nat, tag_rune_pred());
        lemma_run_len(s, i + 1, MAX_TAG_LENGTH as nat, tag_rune_pred());
        if n == 0 {
            lemma_tag_occurrences_written(s, i + 1);
            assert(tag_occurrences(s, i) == tag_occurrences(s, i + 1));
        } else {
            lemma_tag_occurrences_written(s, i + 1 + n);
            let t = s.subrange(i + 1, i + 1 + n);
            let rest = tag_occurrences(s, i + 1 + n);
            let occ = tag_occurrences(s, i);
            assert(occ == seq![t] + rest);
            assert(tag_written_at(s, i, t));
            lemma_cons_tags_written(s, i, t, rest);
        }
    }
}

/// Every one of `occ` is written as a mention somewhere in `s`.
pub open spec fn all_mentions_written(s: Seq<char>, occ: Seq<Seq<char>>) -> bool {
    forall|k: int| 0 <= k < occ.len() ==> #[trigger] mention_written(s, occ[k])
}

/// `x` is written as a mention at some position of `s`.
pub open spec fn mention_written(s: Seq<char>, x: Seq<char>) -> bool {
    exists|p: int| #[trigger] mention_written_at(s, p, x)
}

/// A mention written at `p` followed by mentions written somewhere: all are written.
proof fn lemma_cons_mentions_written(s: Seq<char>, p: int, x: Seq<char>, rest: Seq<Seq<char>>)
    requires
        mention_written_at(s, p, x),
        all_mentions_written(s, rest),
    ensures
        all_mentions_written(s, seq![x] + rest),
{
    let occ = seq![x] + rest;
    assert(mention_written(s, x));
    assert forall|k: int| 0 <= k < occ.len() implies #[trigger] mention_written(s, occ[k]) by {
        if k > 0 {
            assert(occ[k] == rest[k - 1]);
        }
    }
}

/// Every mention found from position `i` is written after an `@` at a boundary of `s`.
pub proof fn lemma_mention_occurrences_written(s: Seq<char>, i: int)
    ensures
        all_mentions_written(s, mention_occurrences(s, i)),
    decreases s.len() - i,
{
    if i < 0 || i >= s.len() {
        assert(mention_occurrences(s, i).len() == 0);
    } else if s[i] != '@' {
        lemma_mention_occurrences_written(s, i + 1);
        assert(mention_occurrences(s, i) == mention_occurrences(s, i + 1));
    } else if i > 0 && !mention_boundary(s[i - 1]) {
        lemma_mention_occurrences_written(s, i + 1);
        assert(mention_occurrences(s, i) == mention_occurrences(s, i + 1));
    } else {
        let n = run_len(s, i + 1, MAX_MENTION_LENGTH as nat, mention_rune_pred());
        lemma_run_len(s, i + 1, MAX_MENTION_LENGTH as nat, mention_rune_pred());
        lemma_mention_occurrences_written(s, i + 1 + n);
        let m = s.subrange(i + 1, i + 1 + n);
        if !(n > 0 && has_alphanumeric(m)) {
            assert(mention_occurrences(s, i) == mention_occurrences(s, i + 1 + n));
        } else {
            let rest = mention_occurrences(s, i + 1 + n);
            let occ = mention_occurrences(s, i);
            assert(occ == seq![m] + rest);
            assert(mention_written_at(s, i, m));
            lemma_cons_mentions_written(s, i, m, rest);
        }
    }
}

/// Law: every extracted tag is written in the content right after a `#`.
pub proof fn law_tags_are_written(s: Seq<char>)
    ensures
        forall|t: Seq<char>| #[trigger] tags_of(s).contains(t) ==> tag_written(s, t),
{
    law_tags_well_formed(s);
    lemma_tag_occurrences_written(s, 0);
    let occ = tag_occurrences(s, 0);
    assert forall|t: Seq<char>| #[trigger] tags_of(s).contains(t) implies tag_written(s, t) by {
        assert(occ.contains(t));
        let j = choose|j: int| 0 <= j < occ.len() && occ[j] == t;
        assert(tag_written(s, occ[j]));
    }
}

/// Law: every extracted mention is written in the content right after an `@` that starts
/// the content or follows a boundary character.
pub proof fn law_mentions_are_written(s: Seq<char>)
    ensures
        forall|m: Seq<char>| #[trigger] mentions_of(s).contains(m) ==> mention_written(s, m),
{
    law_mentions_well_formed(s);
    lemma_mention_occurrences_written(s, 0);
    let occ = mention_occurrences(s, 0);
    assert forall|m: Seq<char>| #[trigger] mentions_of(s).contains(m) implies mention_written(s, m) by {
        assert(occ.contains(m));
        let j = choose|j: int| 0 <= j < occ.len() && occ[j] == m;
        assert(mention_written(s, occ[j]));
    }
}

/// Law: a snippet is never longer than `max_len` characters plus the ellipsis, and a text
/// that fits is returned whole, without an ellipsis.
pub proof fn law_snippet_length(s: Seq<char>, max_len: nat)
    ensures
        snippet(s, max_len).len() <= max_len + 1,
        stripped(s).len() <= max_len ==> snippet(s, max_len) == stripped(s),
        stripped(s).len() > max_len ==> snippet(s, max_len).len() == max_len + 1
            && snippet(s, max_len).last() == '\u{2026}' && snippet(s, max_len).take(
            max_len as int,
        ) == stripped(s).take(max_len as int),
{
    let p = stripped(s);
    if p.len() > max_len {
        assert(snippet(s, max_len).take(max_len as int) =~= p.take(max_len as int));
    }
}


/// A run over characters that all satisfy `p` up to the end of `s`, no longer than
/// `limit`, covers them all.
proof fn lemma_run_len_to_end(s: Seq<char>, j: int, limit: nat, p: spec_fn(char) -> bool)
    requires
        0 <= j <= s.len(),
        s.len() - j <= limit,
        forall|k: int| j <= k < s.len() ==> p(#[trigger] s[k]),
    ensures
        run_len(s, j, limit, p) == s.len() - j,
    decreases limit,
{
    if j < s.len() {
        lemma_run_len_to_end(s, j + 1, (limit - 1) as nat, p);
    }
}

/// Law: a `#` followed by a run of tag characters (Unicode letters and digits, symbols,
/// marks, the zero width joiner, `_`, `-`, `/` and `&`) of at most `MAX_TAG_LENGTH`
/// characters, not starting with `#` or a space, gives exactly that tag: no tag character
/// cuts a tag short.
pub proof fn law_tag_characters_continue_tag(t: Seq<char>)
    requires
        0 < t.len() <= MAX_TAG_LENGTH,
        t[0] != '#' && t[0] != ' ',
        forall|k: int|
            0 <= k < t.len() ==> (unicode_alphanumeric(#[trigger] t[k]) || unicode_symbol(t[k])
                || unicode_mark(t[k]) || t[k] == '\u{200D}' || t[k] == '_' || t[k] == '-' || t[k]
                == '/' || t[k] == '&'),
    ensures
        tags_of(seq!['#'] + t) == seq![t],
{
    let s = seq!['#'] + t;
    assert forall|k: int| 1 <= k < s.len() implies (tag_rune_pred())(#[trigger] s[k]) by {
        assert(s[k] == t[k - 1]);
    }
    lemma_run_len_to_end(s, 1, MAX_TAG_LENGTH as nat, tag_rune_pred());
    assert(s[0] == '#');
    assert(s[1] == t[0]);
    assert(s.subrange(1, 1 + t.len() as int) =~= t);
    assert(tag_occurrences(s, 1 + t.len() as int) == Seq::<Seq<char>>::empty());
    assert(tag_occurrences(s, 0) == seq![t]);
    let one = seq![t];
    assert(one.skip(1) =~= Seq::<Seq<char>>::empty());
    assert(Seq::<Seq<char>>::empty() + seq![one[0]] =~= seq![t]);
    assert(one.remove_duplicates(seq![]) == one.skip(1).remove_duplicates(seq![] + seq![one[0]]));
}

/// The scan from any position up to the `@` at `p_len` reaches that `@`, and the mention
/// written after it is found.
proof fn lemma_scan_reaches_mention(s: Seq<char>, p_len: int, m: Seq<char>, i: int)
    requires
        0 <= i <= p_len,
        p_len + 1 + m.len() == s.len(),
        s[p_len] == '@',
        s.subrange(p_len + 1, s.len() as int) == m,
        p_len > 0 ==> !unicode_alphanumeric(s[p_len - 1]) && s[p_len - 1] != '-',
        0 < m.len() <= MAX_MENTION_LENGTH,
        forall|k: int| 0 <= k < m.len() ==> unicode_alphanumeric(#[trigger] m[k]) || m[k] == '-',
        has_alphanumeric(m),
    ensures
        mention_occurrences(s, i).contains(m),
    decreases p_len - i,
{
    if i == p_len {
        assert forall|k: int| p_len + 1 <= k < s.len() implies (mention_rune_pred())(
            #[trigger] s[k],
        ) by {
            assert(s[k] == m[k - p_len - 1]);
        }
        lemma_run_len_to_end(s, p_len + 1, MAX_MENTION_LENGTH as nat, mention_rune_pred());
        if p_len > 0 {
            assert(mention_boundary(s[p_len - 1]));
        }
        assert(s.subrange(p_len + 1, p_len + 1 + m.len()) =~= m);
        let occ = mention_occurrences(s, i);
        assert(occ == seq![m] + mention_occurrences(s, p_len + 1 + m.len()));
        assert(occ[0] == m);
    } else if s[i] != '@' {
        lemma_scan_reaches_mention(s, p_len, m, i + 1);
    } else if i > 0 && !mention_boundary(s[i - 1]) {
        lemma_scan_reaches_mention(s, p_len, m, i + 1);
    } else {
        let n = run_len(s, i + 1, MAX_MENTION_LENGTH as nat, mention_rune_pred());
        lemma_run_len(s, i + 1, MAX_MENTION_LENGTH as nat, mention_rune_pred());
        if i + 1 + n > p_len {
            if i + 1 <= p_len - 1 {
                assert((mention_rune_pred())(s[p_len - 1]));
            } else {
                assert(i == p_len - 1);
                assert((mention_rune_pred())(s[p_len]));
                assert(s[i] == '@');
            }
        }
        lemma_scan_reaches_mention(s, p_len, m, i + 1 + n);
        let mm = s.subrange(i + 1, i + 1 + n);
        let rest = mention_occurrences(s, i + 1 + n);
        if n > 0 && has_alphanumeric(mm) {
            let occ = mention_occurrences(s, i);
            assert(occ == seq![mm] + rest);
            let q = choose|q: int| 0 <= q < rest.len() && rest[q] == m;
            assert(occ[q + 1] == m);
        }
    }
}

/// Law: an `@` at the start of the content or after a character that is neither a letter,
/// a digit nor `-` (whitespace, punctuation such as `(` or `,`, a symbol) starts a mention:
/// a run of letters, digits and `-` of at most `MAX_MENTION_LENGTH` characters holding a
/// letter or digit that follows it to the end of the content is among the mentions.
pub proof fn law_mention_after_non_word(p: Seq<char>, m: Seq<char>)
    requires
        p.len() > 0 ==> !unicode_alphanumeric(p.last()) && p.last() != '-',
        0 < m.len() <= MAX_MENTION_LENGTH,
        forall|k: int| 0 <= k < m.len() ==> unicode_alphanumeric(#[trigger] m[k]) || m[k] == '-',
        exists|k: int| 0 <= k < m.len() && unicode_alphanumeric(#[trigger] m[k]),
    ensures
        mentions_of(p + seq!['@'] + m).contains(m),
{
    let s = p + seq!['@'] + m;
    let pl = p.len() as int;
    assert(s[pl] == '@');
    assert(s.subrange(pl + 1, s.len() as int) =~= m);
    if pl > 0 {
        assert(s[pl - 1] == p.last());
    }
    lemma_scan_reaches_mention(s, pl, m, 0);
    lemma_remove_duplicates_no_dup(mention_occurrences(s, 0), seq![]);
}


/// Law: a line made of leading whitespace, then any run of the heading, list and quote
/// markers `#`, `-`, `*`, `+` and `>`, then whitespace, then a text that starts with neither
/// whitespace nor such a marker, is cleaned to that text: every one of these markers is
/// removed from the start of a line.
pub proof fn law_line_markers_removed(w: Seq<char>, k: Seq<char>, v: Seq<char>, r: Seq<char>)
    requires
        forall|i: int| 0 <= i < w.len() ==> unicode_whitespace(#[trigger] w[i]),
        forall|i: int|
            0 <= i < k.len() ==> (#[trigger] k[i] == '#' || k[i] == '-' || k[i] == '*' || k[i]
                == '+' || k[i] == '>'),
        forall|i: int| 0 <= i < v.len() ==> unicode_whitespace(#[trigger] v[i]),
        r.len() > 0 ==> !unicode_whitespace(r[0]) && r[0] != '#' && r[0] != '-' && r[0] != '*'
            && r[0] != '+' && r[0] != '>',
    ensures
        clean_line(w + k + v + r) == r,
{
    let l = w + k + v + r;
    let after_ws = k + v + r;
    assert forall|i: int| 0 <= i < w.len() implies (ws())(#[trigger] l[i]) by {
        assert(l[i] == w[i]);
    }
    if k.len() == 0 && v.len() > 0 {
        // The whitespace before and after the (empty) markers is one run.
        let wv = w + v;
        assert(l =~= wv + r);
        assert forall|i: int| 0 <= i < wv.len() implies (ws())(#[trigger] l[i]) by {
            if i < w.len() {
                assert(l[i] == w[i]);
            } else {
                assert(l[i] == v[i - w.len()]);
            }
        }
        if wv.len() < l.len() {
            assert(l[wv.len() as int] == r[0]);
        }
        lemma_leading_count_exact(l, ws(), wv.len() as int);
        assert(trim_start_by(l, ws()) =~= r);
        if r.len() > 0 {
            assert(!(line_marker_pred())(r[0]));
        }
        lemma_leading_count_exact(r, line_marker_pred(), 0);
        assert(trim_start_by(r, line_marker_pred()) =~= r);
        lemma_leading_count_exact(r, ws(), 0);
        assert(trim_start_by(r, ws()) =~= r);
    } else {
        if w.len() < l.len() {
            if k.len() > 0 {
                assert(l[w.len() as int] == k[0]);
            } else {
                assert(l[w.len() as int] == r[0]);
            }
        }
        lemma_leading_count_exact(l, ws(), w.len() as int);
        assert(trim_start_by(l, ws()) =~= after_ws);
        assert forall|i: int| 0 <= i < k.len() implies (line_marker_pred())(
            #[trigger] after_ws[i],
        ) by {
            assert(after_ws[i] == k[i]);
        }
        if k.len() < after_ws.len() {
            if v.len() > 0 {
                assert(after_ws[k.len() as int] == v[0]);
                assert(unicode_whitespace(v[0]));
            } else {
                assert(after_ws[k.len() as int] == r[0]);
            }
        }
        lemma_leading_count_exact(after_ws, line_marker_pred(), k.len() as int);
        let vr = v + r;
        assert(trim_start_by(after_ws, line_marker_pred()) =~= vr);
        assert forall|i: int| 0 <= i < v.len() implies (ws())(#[trigger] vr[i]) by {
            assert(vr[i] == v[i]);
        }
        if v.len() < vr.len() {
            assert(vr[v.len() as int] == r[0]);
        }
        lemma_leading_count_exact(vr, ws(), v.len() as int);
        assert(trim_start_by(vr, ws()) =~= r);
    }
}

/// Law: the plain text of a single line (no line break, no carriage return at its end) is
/// its cleaned text with whitespace collapsed.
pub proof fn law_single_line_stripped(l: Seq<char>)
    requires
        l.len() > 0,
        forall|i: int| 0 <= i < l.len() ==> #[trigger] l[i] != '\n',
        l.last() != '\r',
    ensures
        stripped(l) == squeeze_ws(clean_line(l).push(' ')),
{
    assert forall|k: int| 0 <= k < l.len() implies (not_newline())(#[trigger] l[k]) by {}
    lemma_run_len_to_end(l, 0, l.len(), not_newline());
    assert(l.subrange(0, l.len() as int) =~= l);
    assert(strip_cr(l) == l);
}


/// Law: the plain text of a single line that starts (after whitespace) with heading, list
/// or quote markers is the text after them with whitespace collapsed: the markers never
/// reach the snippet.
pub proof fn law_marked_line_stripped(w: Seq<char>, k: Seq<char>, v: Seq<char>, r: Seq<char>)
    requires
        forall|i: int| 0 <= i < w.len() ==> unicode_whitespace(#[trigger] w[i]),
        forall|i: int|
            0 <= i < k.len() ==> (#[trigger] k[i] == '#' || k[i] == '-' || k[i] == '*' || k[i]
                == '+' || k[i] == '>'),
        forall|i: int| 0 <= i < v.len() ==> unicode_whitespace(#[trigger] v[i]),
        r.len() > 0,
        !unicode_whitespace(r[0]) && r[0] != '#' && r[0] != '-' && r[0] != '*' && r[0] != '+'
            && r[0] != '>',
        forall|i: int| 0 <= i < (w + k + v + r).len() ==> #[trigger] (w + k + v + r)[i] != '\n',
        r.last() != '\r',
    ensures
        stripped(w + k + v + r) == squeeze_ws(r.push(' ')),
{
    law_line_markers_removed(w, k, v, r);
    let l = w + k + v + r;
    assert(l.last() == r.last());
    law_single_line_stripped(l);
}

} // verus!
