//! Language model providers: choosing one and addressing its chat endpoint; the tag
//! suggestions asked of a model and how its answer is read.
use crate::error::IpcError;
use crate::markdown::string_views;
use crate::text::{
    chars_of, join_strings, join_with, string_from_chars, sub_chars,
    trim_chars, trim_end_by, trim_ws,
};
use vstd::prelude::*;

verus! {

/// Key of the stored provider list.
pub const AI_PROVIDERS_KEY: &'static str = "ai_providers";

/// An OpenAI-compatible provider.
#[derive(Debug, Clone)]
pub struct ProviderConfig {
    pub id: String,
    pub name: String,
    pub base_url: String,
    /// May be empty (local servers).
    pub api_key: String,
    pub model: String,
}

/// Index of the first provider with id `id`, if any.
pub open spec fn find_provider(ps: Seq<ProviderConfig>, id: Seq<char>) -> Option<int>
    decreases ps.len(),
{
    if ps.len() == 0 {
        None
    } else {
        match find_provider(ps.drop_last(), id) {
            Some(k) => Some(k),
            None => if ps.last().id@ == id {
                Some(ps.len() - 1)
            } else {
                None
            },
        }
    }
}

/// The provider used: the preferred one when given, not empty and configured; else the
/// first one; no provider at all is refused.
pub open spec fn chosen_provider(ps: Seq<ProviderConfig>, preferred: Option<Seq<char>>) -> Option<
    int,
> {
    let by_id = match preferred {
        Some(id) => if id.len() > 0 {
            find_provider(ps, id)
        } else {
            None
        },
        None => None,
    };
    match by_id {
        Some(k) => Some(k),
        None => if ps.len() > 0 {
            Some(0)
        } else {
            None
        },
    }
}

proof fn lemma_find_provider(ps: Seq<ProviderConfig>, id: Seq<char>, k: int)
    requires
        0 <= k <= ps.len(),
        forall|q: int| 0 <= q < k ==> ps[q].id@ != id,
    ensures
        k < ps.len() && ps[k].id@ == id ==> find_provider(ps, id) == Some(k),
        k == ps.len() ==> find_provider(ps, id) is None,
    decreases ps.len(),
{
    if ps.len() > 0 {
        let d = ps.drop_last();
        if k < ps.len() - 1 || k == ps.len() {
            let k2 = if k == ps.len() {
                d.len() as int
            } else {
                k
            };
            assert forall|q: int| 0 <= q < k2 implies d[q].id@ != id by {
                assert(d[q] == ps[q]);
            }
            lemma_find_provider(d, id, k2);
            if k < ps.len() - 1 && ps[k].id@ == id {
                assert(d[k] == ps[k]);
            }
        } else {
            assert forall|q: int| 0 <= q < d.len() implies d[q].id@ != id by {
                assert(d[q] == ps[q]);
            }
            lemma_find_provider(d, id, d.len() as int);
        }
    }
}

/// The characters of an optional string.
pub open spec fn str_option_view(o: Option<&str>) -> Option<Seq<char>> {
    match o {
        Some(s) => Some(s@),
        None => None,
    }
}

/// Picks the provider to call (see `chosen_provider`).
pub fn pick_provider<'a>(providers: &'a [ProviderConfig], preferred_id: Option<&str>) -> (r:
    Result<&'a ProviderConfig, IpcError>)
    ensures
        match chosen_provider(providers@, str_option_view(preferred_id)) {
            Some(k) => match r {
                Ok(p) => *p == providers@[k],
                Err(_) => false,
            },
            None => match r {
                Ok(_) => false,
                Err(e) => e matches IpcError::BadRequest(m) && m@
                    == "未配置 AI provider，请先在设置中配置"@,
            },
        },
{
    if let Some(id) = preferred_id {
        let idc = chars_of(id);
        if idc.len() > 0 {
            let mut k: usize = 0;
            while k < providers.len()
                invariant
                    k <= providers.len(),
                    idc@ == id@,
                    idc@.len() > 0,
                    preferred_id == Some(id),
                    forall|q: int| 0 <= q < k ==> providers@[q].id@ != id@,
                decreases providers.len() - k,
            {
                let pc = chars_of(providers[k].id.as_str());
                if crate::text::chars_equal(pc.as_slice(), idc.as_slice()) {
                    proof {
                        lemma_find_provider(providers@, id@, k as int);
                    }
                    return Ok(&providers[k]);
                }
                k = k + 1;
            }
            proof {
                lemma_find_provider(providers@, id@, k as int);
            }
        }
    }
    if providers.len() > 0 {
        Ok(&providers[0])
    } else {
        Err(IpcError::BadRequest(String::from_str("未配置 AI provider，请先在设置中配置")))
    }
}

/// The chat completion endpoint of a provider: its base URL without trailing `/`, then
/// `/chat/completions`.
pub open spec fn completions_url(base: Seq<char>) -> Seq<char> {
    trim_end_by(base, |c: char| c == '/') + "/chat/completions"@
}

/// The chat completion endpoint of `provider`.
pub fn completion_url(provider: &ProviderConfig) -> (r: String)
    ensures
        r@ == completions_url(provider.base_url@),
{
    let b = chars_of(provider.base_url.as_str());
    let mut end = b.len();
    while end > 0 && b[end - 1] == '/'
        invariant
            end <= b.len(),
            forall|k: int| end <= k < b.len() ==> b@[k] == '/',
        decreases end,
    {
        end = end - 1;
    }
    proof {
        crate::text::lemma_trailing_count_exact(b@, |c: char| c == '/', b.len() - end);
        assert(b@.take(end as int) =~= b@.subrange(0, end as int));
    }
    let kept = sub_chars(b.as_slice(), 0, end);
    let mut s = string_from_chars(kept.as_slice());
    s.append("/chat/completions");
    s
}

/// The authorization header value, `Bearer {key}`, when the provider has a key.
pub fn authorization(provider: &ProviderConfig) -> (r: Option<String>)
    ensures
        provider.api_key@.len() == 0 ==> r is None,
        provider.api_key@.len() > 0 ==> (r matches Some(h) && h@ == "Bearer "@ + provider.api_key@),
{
    let k = chars_of(provider.api_key.as_str());
    if k.len() == 0 {
        None
    } else {
        let mut h = String::from_str("Bearer ");
        h.append(provider.api_key.as_str());
        Some(h)
    }
}


/// Most tags suggested at once.
pub const MAX_SUGGESTED_TAGS: usize = 10;

/// The instructions given to the model that suggests tags.
pub const SUGGEST_TAGS_PROMPT: &'static str =
    "你是一位专业的笔记标签建议专家，擅长精准提取笔记的核心主题和所属科目。\n    标签分两种类型：\n    1. 分类标签: 用于笔记归类的科目类别（至少包含1个）。\n    2. 主题标签: 精准概括笔记的核心主题。\n    根据用户提供的笔记内容，建议 3-5 个合适的标签。至少需要1个分类标签。\n    规则：\n    1. 只返回标签名，不含 # 号\n    2. 用逗号分隔\n    3. 优先从「系统已有标签」中选择与笔记相关的标签，避免创建含义重复的新标签\n    4. 只有当已有标签都无法归类的科目类别或概括笔记主题时，才创建新标签\n    5. 不要返回笔记中已经包含的标签\n    6. 标签应简短（1-4个字/词），能概括笔记主题\n    7. 只返回标签列表，不要其他文字";

/// The message sent with the note: the tags already in use, when there are any, then the
/// note.
pub fn suggest_tags_message(system_tags: &Vec<String>, content: &str) -> (r: String)
    ensures
        system_tags.len() == 0 ==> r@ == "笔记内容：\n\n"@ + content@,
        system_tags.len() > 0 ==> r@ == "系统已有标签：\n"@ + join_with(
            string_views(system_tags@),
            ", "@,
        ) + "\n\n笔记内容：\n\n"@ + content@,
{
    if system_tags.len() == 0 {
        let mut s = String::from_str("笔记内容：\n\n");
        s.append(content);
        s
    } else {
        let joined = join_strings(system_tags, ", ");
        let mut s = String::from_str("系统已有标签：\n");
        s.append(joined.as_str());
        s.append("\n\n笔记内容：\n\n");
        s.append(content);
        assert(string_views(system_tags@) == system_tags@.map_values(|x: String| x@));
        s
    }
}

/// Separators between suggested tags: `,`, `，` and `、`.
pub open spec fn tag_separator(c: char) -> bool {
    c == ',' || c == '，' || c == '、'
}

/// The pieces of `s` between separators, empty ones included (`str::split`).
pub open spec fn split_pieces(s: Seq<char>) -> Seq<Seq<char>>
    decreases s.len(),
{
    if s.len() == 0 {
        seq![seq![]]
    } else {
        let prev = split_pieces(s.drop_last());
        if tag_separator(s.last()) {
            prev.push(seq![])
        } else {
            prev.update(prev.len() - 1, prev.last().push(s.last()))
        }
    }
}

/// A piece as a tag: trimmed, without `#`, trimmed again.
pub open spec fn clean_piece(p: Seq<char>) -> Seq<char> {
    trim_ws(trim_ws(p).filter(|c: char| c != '#'))
}

/// The suggested tags of an answer, before the cut to `MAX_SUGGESTED_TAGS`: the cleaned
/// pieces that are not empty and not among the note's own tags.
pub open spec fn suggestion_candidates(text: Seq<char>, existing: Seq<Seq<char>>) -> Seq<Seq<char>> {
    split_pieces(text).map_values(|p: Seq<char>| clean_piece(p)).filter(
        |t: Seq<char>| t.len() > 0 && !existing.contains(t),
    )
}

pub proof fn lemma_split_pieces_nonempty(s: Seq<char>)
    ensures
        split_pieces(s).len() >= 1,
    decreases s.len(),
{
    if s.len() > 0 {
        lemma_split_pieces_nonempty(s.drop_last());
    }
}

/// `p` without its `#` characters.
fn without_hash(p: &Vec<char>) -> (r: Vec<char>)
    ensures
        r@ == p@.filter(|c: char| c != '#'),
{
    let ghost pred = |c: char| c != '#';
    let mut out: Vec<char> = Vec::new();
    let mut k: usize = 0;
    while k < p.len()
        invariant
            k <= p.len(),
            pred == (|c: char| c != '#'),
            out@ == p@.take(k as int).filter(pred),
        decreases p.len() - k,
    {
        proof {
            reveal_with_fuel(Seq::filter, 1);
            assert(p@.take(k + 1).drop_last() =~= p@.take(k as int));
        }
        if p[k] != '#' {
            out.push(p[k]);
        }
        k = k + 1;
    }
    assert(p@.take(p.len() as int) =~= p@);
    out
}

/// The pieces of `s` between separators.
fn split_on_separators(s: &Vec<char>) -> (r: Vec<Vec<char>>)
    ensures
        r@.map_values(|v: Vec<char>| v@) == split_pieces(s@),
{
    let mut out: Vec<Vec<char>> = Vec::new();
    let mut cur: Vec<char> = Vec::new();
    let mut k: usize = 0;
    assert(out@.map_values(|v: Vec<char>| v@).push(cur@) =~= split_pieces(s@.take(0)));
    while k < s.len()
        invariant
            k <= s.len(),
            out@.map_values(|v: Vec<char>| v@).push(cur@) == split_pieces(s@.take(k as int)),
        decreases s.len() - k,
    {
        let c = s[k];
        let ghost prev = split_pieces(s@.take(k as int));
        let ghost done = out@.map_values(|v: Vec<char>| v@);
        proof {
            assert(s@.take(k + 1).drop_last() =~= s@.take(k as int));
            assert(s@.take(k + 1).last() == c);
            lemma_split_pieces_nonempty(s@.take(k as int));
        }
        if c == ',' || c == '，' || c == '、' {
            let ghost cv = cur@;
            out.push(cur);
            cur = Vec::new();
            assert(out@.map_values(|v: Vec<char>| v@) =~= done.push(cv));
            assert(out@.map_values(|v: Vec<char>| v@).push(cur@) =~= prev.push(seq![]));
        } else {
            let ghost cv = cur@;
            cur.push(c);
            assert(prev.last() == cv);
            assert(done.push(cur@) =~= prev.update(prev.len() - 1, prev.last().push(c)));
        }
        k = k + 1;
    }
    assert(s@.take(s.len() as int) =~= s@);
    let ghost done = out@.map_values(|v: Vec<char>| v@);
    let ghost cv = cur@;
    out.push(cur);
    assert(out@.map_values(|v: Vec<char>| v@) =~= done.push(cv));
    out
}

/// The tags suggested by an answer of the model: the pieces between separators, trimmed and
/// stripped of `#`, without empty ones and those the note already has, at most
/// `MAX_SUGGESTED_TAGS` of them.
pub fn parse_suggested_tags(ai_text: &str, existing: &Vec<String>) -> (r: Vec<String>)
    ensures
        ({
            let all = suggestion_candidates(ai_text@, string_views(existing@));
            string_views(r@) == if all.len() <= MAX_SUGGESTED_TAGS {
                all
            } else {
                all.take(MAX_SUGGESTED_TAGS as int)
            }
        }),
{
    let text = chars_of(ai_text);
    let pieces = split_on_separators(&text);
    let ghost pv = pieces@.map_values(|v: Vec<char>| v@);
    let ghost cleaned = pv.map_values(|p: Seq<char>| clean_piece(p));
    let ghost ex = string_views(existing@);
    let ghost pred = |t: Seq<char>| t.len() > 0 && !ex.contains(t);
    let mut out: Vec<String> = Vec::new();
    let mut k: usize = 0;
    assert(string_views(out@) =~= seq![]);
    while k < pieces.len() && out.len() < MAX_SUGGESTED_TAGS
        invariant
            k <= pieces.len(),
            pv == pieces@.map_values(|v: Vec<char>| v@),
            cleaned == pv.map_values(|p: Seq<char>| clean_piece(p)),
            ex == string_views(existing@),
            pred == (|t: Seq<char>| t.len() > 0 && !ex.contains(t)),
            string_views(out@) == cleaned.take(k as int).filter(pred),
            out.len() <= MAX_SUGGESTED_TAGS,
        decreases pieces.len() - k,
    {
        proof {
            reveal_with_fuel(Seq::filter, 1);
            assert(cleaned.take(k + 1).drop_last() =~= cleaned.take(k as int));
            assert(cleaned.take(k + 1).last() == clean_piece(pieces@[k as int]@));
        }
        let t1 = trim_chars(pieces[k].as_slice());
        let t2 = without_hash(&t1);
        let t3 = trim_chars(t2.as_slice());
        let cand = string_from_chars(t3.as_slice());
        if t3.len() > 0 && !crate::markdown::contains_chars(existing, &cand) {
            let ghost before = string_views(out@);
            out.push(cand);
            assert(string_views(out@) =~= before.push(t3@));
        }
        k = k + 1;
    }
    proof {
        let all = suggestion_candidates(ai_text@, ex);
        assert(cleaned == split_pieces(text@).map_values(|p: Seq<char>| clean_piece(p)));
        assert(pred == (|t: Seq<char>| t.len() > 0 && !ex.contains(t)));
        lemma_filter_take_prefix(cleaned, pred, k as int);
        if k == pieces.len() {
            assert(cleaned.take(k as int) =~= cleaned);
        }
    }
    out
}

/// The filtered prefix of a sequence is a prefix of the filtered sequence, and they agree
/// when the prefix is the whole sequence.
pub proof fn lemma_filter_take_prefix<A>(s: Seq<A>, p: spec_fn(A) -> bool, k: int)
    requires
        0 <= k <= s.len(),
    ensures
        s.take(k).filter(p).len() <= s.filter(p).len(),
        s.filter(p).take(s.take(k).filter(p).len() as int) == s.take(k).filter(p),
        s.take(k).filter(p).len() < s.filter(p).len() ==> k < s.len(),
    decreases s.len() - k,
{
    if k < s.len() {
        lemma_filter_take_prefix(s, p, k + 1);
        reveal_with_fuel(Seq::filter, 1);
        assert(s.take(k + 1).drop_last() =~= s.take(k));
        let a = s.take(k).filter(p);
        let b = s.take(k + 1).filter(p);
        let f = s.filter(p);
        assert(f.take(b.len() as int) == b);
        if p(s[k]) {
            assert(b == a.push(s[k]));
            assert(f.take(a.len() as int) =~= f.take(b.len() as int).take(a.len() as int));
            assert(b.take(a.len() as int) =~= a);
        } else {
            assert(b == a);
        }
    } else {
        assert(s.take(k) =~= s);
        assert(s.filter(p).take(s.filter(p).len() as int) =~= s.filter(p));
    }
}


/// The answer to a completion request by its status: a failure status is an internal error
/// `HTTP {status}: {body}`.
pub fn completion_status(status: u16, body: &str) -> (r: Result<(), IpcError>)
    ensures
        status >= 400 ==> (r matches Err(IpcError::Internal(m)) && m@ == "HTTP "@
            + crate::text::decimal(status as nat) + ": "@ + body@),
        status < 400 ==> r is Ok,
{
    if crate::agent::is_http_failure(status) {
        Err(IpcError::Internal(crate::agent::http_error_message(status, body)))
    } else {
        Ok(())
    }
}

/// The text of a completion answer's first choice; empty when it has none.
pub fn reply_text(content: Option<String>) -> (r: String)
    ensures
        r@ == match content {
            Some(c) => c@,
            None => Seq::<char>::empty(),
        },
{
    match content {
        Some(c) => c,
        None => String::new(),
    }
}

} // verus!
