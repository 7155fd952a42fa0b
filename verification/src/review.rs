//! Review decks: sets of memos turned into flash cards by a model, and the checks and
//! prompts around them.
use crate::ai::ProviderConfig;
use crate::error::IpcError;
use crate::markdown::string_views;
use crate::text::{
    chars_of, extend_chars, join_strings, join_with, signed_decimal,
    push_signed_decimal, str_equals, string_from_chars, sub_chars, trim_ws, trim_chars,
};
use vstd::prelude::*;

verus! {

/// A deck; `tags` selects its memos.
#[derive(Debug, Clone)]
pub struct ReviewDeck {
    pub id: i32,
    pub name: String,
    pub tags: Vec<String>,
    pub cards_per_memo: i32,
    pub created_ts: i64,
    pub last_reviewed_ts: Option<i64>,
    /// Memo count when cards were last generated (to notice new memos).
    pub memo_count: i32,
}

/// Card states of the scheduler, by their stored number: 0 new, 1 learning, 2 review,
/// 3 relearning; any other number reads as new.
#[derive(Debug, Clone, Copy, PartialEq, Eq)]
pub enum CardState {
    New,
    Learning,
    Review,
    Relearning,
}

/// The state a stored number stands for.
pub open spec fn state_of(n: u8) -> CardState {
    if n == 1 {
        CardState::Learning
    } else if n == 2 {
        CardState::Review
    } else if n == 3 {
        CardState::Relearning
    } else {
        CardState::New
    }
}

/// The number a state is stored as.
pub open spec fn state_number(s: CardState) -> u8 {
    match s {
        CardState::New => 0u8,
        CardState::Learning => 1u8,
        CardState::Review => 2u8,
        CardState::Relearning => 3u8,
    }
}

/// The state a stored number stands for.
pub fn state_from_u8(n: u8) -> (s: CardState)
    ensures
        s == state_of(n),
{
    if n == 1 {
        CardState::Learning
    } else if n == 2 {
        CardState::Review
    } else if n == 3 {
        CardState::Relearning
    } else {
        CardState::New
    }
}

/// The stored number of a state.
pub fn state_to_u8(s: CardState) -> (n: u8)
    ensures
        n == state_number(s),
{
    match s {
        CardState::New => 0,
        CardState::Learning => 1,
        CardState::Review => 2,
        CardState::Relearning => 3,
    }
}

/// Review grades: 1 again, 2 hard, 3 good, 4 easy; any other number counts as good.
#[derive(Debug, Clone, Copy, PartialEq, Eq)]
pub enum Rating {
    Again,
    Hard,
    Good,
    Easy,
}

/// The grade a number stands for.
pub fn rating_from_u8(n: u8) -> (r: Rating)
    ensures
        r == (if n == 1 {
            Rating::Again
        } else if n == 2 {
            Rating::Hard
        } else if n == 4 {
            Rating::Easy
        } else {
            Rating::Good
        }),
{
    if n == 1 {
        Rating::Again
    } else if n == 2 {
        Rating::Hard
    } else if n == 4 {
        Rating::Easy
    } else {
        Rating::Good
    }
}

/// Law: a stored state number from 0 to 3 read back and stored again is unchanged, and
/// storing any state then reading it back gives the same state.
pub proof fn law_state_round_trip(s: CardState, n: u8)
    ensures
        n <= 3 ==> state_number(state_of(n)) == n,
        state_of(state_number(s)) == s,
{
}

/// Fewest and most cards asked per memo.
pub const MIN_CARDS_PER_MEMO: i32 = 1;
pub const MAX_CARDS_PER_MEMO: i32 = 10;

/// Due cards listed at once: 50 unless asked, at most 500.
pub const DEFAULT_DUE_LIMIT: i32 = 50;
pub const MAX_DUE_LIMIT: i32 = 500;

/// The instructions given to the model that writes cards.
pub const CARD_GEN_SYSTEM_PROMPT: &'static str =
    "你是一个记忆卡片生成专家。根据用户的笔记内容，生成 ANKI 风格的记忆卡片。\n\n## 卡片类型\n- basic: 问答卡（正面问题，背面答案）\n- reversed: 翻转卡（正面术语，背面定义）\n- cloze: 填空卡（front 带 {{答案}} 占位，cloze_answer 存答案词）\n- concept: 概念解释卡（\"请解释：X\" → 完整解释）\n- compare: 对比卡（\"对比 A 和 B\" → 异同点）\n\n## 输出格式\n返回 JSON 数组，每个元素：\n{\n  \"memo_uid\": \"来源 memo 的 uid\",\n  \"card_type\": \"basic|reversed|cloze|concept|compare\",\n  \"front\": \"正面内容（Markdown）\",\n  \"back\": \"背面内容（Markdown）\",\n  \"cloze_answer\": \"填空答案（仅 cloze 类型，其他为 null）\",\n  \"angle\": \"考核点，如：定义|应用|对比|列举|原理\"\n}\n\n## 规则\n1. 每条 memo 最多生成指定数量的卡片\n2. 优先生成核心知识点，避免琐碎细节\n3. front/back 必须独立完整，不依赖其他卡片\n4. 同一 memo 的不同卡片应覆盖不同 angle\n5. 只返回 JSON 数组，不要其他文字";

/// The cards-per-memo setting kept between 1 and 10.
pub fn clamp_cards_per_memo(n: i32) -> (r: i32)
    ensures
        r == if n < MIN_CARDS_PER_MEMO {
            MIN_CARDS_PER_MEMO
        } else if n > MAX_CARDS_PER_MEMO {
            MAX_CARDS_PER_MEMO
        } else {
            n
        },
{
    if n < MIN_CARDS_PER_MEMO {
        MIN_CARDS_PER_MEMO
    } else if n > MAX_CARDS_PER_MEMO {
        MAX_CARDS_PER_MEMO
    } else {
        n
    }
}

/// A new deck's settings: a blank name is refused, the cards per memo are clamped.
pub fn check_new_deck(name: &str, cards_per_memo: i32) -> (r: Result<i32, IpcError>)
    ensures
        trim_ws(name@).len() == 0 ==> (r matches Err(IpcError::BadRequest(m)) && m@
            == "name 不能为空"@),
        trim_ws(name@).len() > 0 ==> r == Ok::<i32, IpcError>(
            if cards_per_memo < MIN_CARDS_PER_MEMO {
                MIN_CARDS_PER_MEMO
            } else if cards_per_memo > MAX_CARDS_PER_MEMO {
                MAX_CARDS_PER_MEMO
            } else {
                cards_per_memo
            },
        ),
{
    let c = chars_of(name);
    let t = trim_chars(c.as_slice());
    if t.len() == 0 {
        Err(IpcError::BadRequest(String::from_str("name 不能为空")))
    } else {
        Ok(clamp_cards_per_memo(cards_per_memo))
    }
}

/// How many due cards to list: 50 when not asked, kept between 1 and 500.
pub fn due_limit(limit: Option<i32>) -> (r: i32)
    ensures
        ({
            let n = match limit {
                Some(x) => x,
                None => DEFAULT_DUE_LIMIT,
            };
            r == if n < 1 {
                1
            } else if n > MAX_DUE_LIMIT {
                MAX_DUE_LIMIT
            } else {
                n
            }
        }),
{
    let n = match limit {
        Some(x) => x,
        None => DEFAULT_DUE_LIMIT,
    };
    if n < 1 {
        1
    } else if n > MAX_DUE_LIMIT {
        MAX_DUE_LIMIT
    } else {
        n
    }
}

/// How many memos of a deck are new since its cards were generated; never negative.
pub fn new_memo_count(current: i32, recorded: i32) -> (r: i32)
    requires
        i32::MIN <= current - recorded <= i32::MAX,
    ensures
        r == if current - recorded > 0 {
            current - recorded
        } else {
            0
        },
{
    let d = current - recorded;
    if d > 0 {
        d
    } else {
        0
    }
}

/// The `deck id={id}` text of a missing deck.
pub fn deck_not_found(id: i32) -> (e: IpcError)
    ensures
        e matches IpcError::NotFound(m) && m@ == "deck id="@ + signed_decimal(id as int),
{
    let mut v = chars_of("deck id=");
    push_signed_decimal(&mut v, id as i64);
    IpcError::NotFound(string_from_chars(v.as_slice()))
}

/// The `card id={id}` text of a missing card.
pub fn card_not_found(id: i32) -> (e: IpcError)
    ensures
        e matches IpcError::NotFound(m) && m@ == "card id="@ + signed_decimal(id as int),
{
    let mut v = chars_of("card id=");
    push_signed_decimal(&mut v, id as i64);
    IpcError::NotFound(string_from_chars(v.as_slice()))
}

/// The provider that writes a deck's cards: the one the review settings name, when they
/// name one (refused when it is not configured); else the first configured one (refused
/// when there is none).
pub fn pick_review_provider<'a>(providers: &'a [ProviderConfig], provider_id: &str) -> (r: Result<
    &'a ProviderConfig,
    IpcError,
>)
    ensures
        provider_id@.len() > 0 ==> match r {
            Ok(p) => exists|k: int|
                0 <= k < providers.len() && providers@[k] == *p && p.id@ == provider_id@ && forall|
                    j: int,
                | 0 <= j < k ==> providers@[j].id@ != provider_id@,
            Err(e) => e matches IpcError::BadRequest(m) && m@ == "review_config 指定的 provider 不存在"@
                && forall|j: int| 0 <= j < providers.len() ==> providers@[j].id@ != provider_id@,
        },
        provider_id@.len() == 0 && providers.len() > 0 ==> (r matches Ok(p) && *p == providers@[0]),
        provider_id@.len() == 0 && providers.len() == 0 ==> (r matches Err(IpcError::BadRequest(m))
            && m@ == "未配置 AI provider，请先在设置中配置"@),
{
    let idc = chars_of(provider_id);
    if idc.len() > 0 {
        let mut k: usize = 0;
        while k < providers.len()
            invariant
                k <= providers.len(),
                idc@ == provider_id@,
                idc.len() > 0,
                forall|j: int| 0 <= j < k ==> providers@[j].id@ != provider_id@,
            decreases providers.len() - k,
        {
            if str_equals(providers[k].id.as_str(), provider_id) {
                return Ok(&providers[k]);
            }
            k = k + 1;
        }
        Err(IpcError::BadRequest(String::from_str("review_config 指定的 provider 不存在")))
    } else if providers.len() > 0 {
        Ok(&providers[0])
    } else {
        Err(IpcError::BadRequest(String::from_str("未配置 AI provider，请先在设置中配置")))
    }
}

/// The request to write cards for a deck: its tags and how many cards per memo.
pub fn generation_prompt(tags: &Vec<String>, cards_per_memo: i32) -> (r: String)
    ensures
        r@ == "请为以下标签的笔记生成记忆卡片：\n- 标签："@ + join_with(string_views(tags@), ", "@)
            + "\n- 每条笔记最多生成 "@ + signed_decimal(cards_per_memo as int)
            + " 张卡片\n\n使用 list_memos_by_tag 工具读取笔记内容。只返回 JSON 数组。"@,
{
    let joined = join_strings(tags, ", ");
    let mut v = chars_of("请为以下标签的笔记生成记忆卡片：\n- 标签：");
    let j = chars_of(joined.as_str());
    extend_chars(&mut v, j.as_slice());
    let m = chars_of("\n- 每条笔记最多生成 ");
    extend_chars(&mut v, m.as_slice());
    push_signed_decimal(&mut v, cards_per_memo as i64);
    let e = chars_of(" 张卡片\n\n使用 list_memos_by_tag 工具读取笔记内容。只返回 JSON 数组。");
    extend_chars(&mut v, e.as_slice());
    assert(string_views(tags@) == tags@.map_values(|x: String| x@));
    string_from_chars(v.as_slice())
}

/// The angles already used by the cards of one memo, in order, from (memo uid, angle) pairs.
pub open spec fn angles_of(cards: Seq<(String, String)>, memo_uid: Seq<char>) -> Seq<String> {
    cards.filter(|c: (String, String)| c.0@ == memo_uid).map_values(|c: (String, String)| c.1)
}

/// The angles of the cards of `memo_uid`, from the deck's (memo uid, angle) pairs.
pub fn memo_angles(cards: &Vec<(String, String)>, memo_uid: &str) -> (r: Vec<String>)
    ensures
        r@ == angles_of(cards@, memo_uid@),
{
    let ghost pred = |c: (String, String)| c.0@ == memo_uid@;
    let mut out: Vec<String> = Vec::new();
    let mut k: usize = 0;
    while k < cards.len()
        invariant
            k <= cards.len(),
            pred == (|c: (String, String)| c.0@ == memo_uid@),
            out@ == cards@.take(k as int).filter(pred).map_values(|c: (String, String)| c.1),
        decreases cards.len() - k,
    {
        proof {
            reveal_with_fuel(Seq::filter, 1);
            assert(cards@.take(k + 1).drop_last() =~= cards@.take(k as int));
        }
        let ghost before = out@;
        if str_equals(cards[k].0.as_str(), memo_uid) {
            out.push(cards[k].1.clone());
            assert(cards@.take(k + 1).filter(pred) == cards@.take(k as int).filter(pred).push(
                cards@[k as int],
            ));
            assert(out@ =~= cards@.take(k + 1).filter(pred).map_values(
                |c: (String, String)| c.1,
            ));
        } else {
            assert(cards@.take(k + 1).filter(pred) == cards@.take(k as int).filter(pred));
        }
        k = k + 1;
    }
    assert(cards@.take(cards.len() as int) =~= cards@);
    out
}

/// The request to write one more card for a memo, from an angle not used yet.
pub fn regeneration_prompt(memo_uid: &str, angles: &Vec<String>) -> (r: String)
    ensures
        r@ == "请为 memo（uid: "@ + memo_uid@ + "）生成一张新的记忆卡片，从不同考核点出题。\n已存在的考核点：["@
            + join_with(string_views(angles@), ", "@)
            + "]，请避免重复。\n使用 get_memo 工具读取该 memo 内容。只返回 JSON 数组（1 个元素）。"@,
{
    let joined = join_strings(angles, ", ");
    let mut s = String::from_str("请为 memo（uid: ");
    s.append(memo_uid);
    s.append("）生成一张新的记忆卡片，从不同考核点出题。\n已存在的考核点：[");
    s.append(joined.as_str());
    s.append("]，请避免重复。\n使用 get_memo 工具读取该 memo 内容。只返回 JSON 数组（1 个元素）。");
    assert(string_views(angles@) == angles@.map_values(|x: String| x@));
    s
}

/// A card the model proposes for a memo.
#[derive(Debug, Clone)]
pub struct CardDraft {
    pub memo_uid: String,
    pub card_type: String,
    pub front: String,
    pub back: String,
    pub cloze_answer: Option<String>,
    pub angle: Option<String>,
}

/// The cards read from the model's answer: those of the whole answer when it is a JSON list
/// of cards, else those of its bracketed span (see `bracketed_span`) when that is one, else
/// none. `whole` and `span` are what reading each as a list of cards gave.
pub fn chosen_drafts(whole: Option<Vec<CardDraft>>, span: Option<Vec<CardDraft>>) -> (r: Vec<
    CardDraft,
>)
    ensures
        whole matches Some(w) ==> r == w,
        whole is None ==> (span matches Some(s) ==> r == s),
        whole is None && span is None ==> r@.len() == 0,
{
    match whole {
        Some(w) => w,
        None => match span {
            Some(s) => s,
            None => Vec::new(),
        },
    }
}

/// The span of an answer from its first `[` to its last `]`, both included, when the `]`
/// comes after the `[` (where a JSON array of cards is looked for when the whole answer is
/// not one).
pub fn bracketed_span(content: &str) -> (r: Option<String>)
    ensures
        match r {
            Some(t) => exists|i: int, j: int|
                0 <= i < j < content@.len() && content@[i] == '[' && content@[j] == ']' && (forall|
                    q: int,
                | 0 <= q < i ==> content@[q] != '[') && (forall|q: int|
                    j < q < content@.len() ==> content@[q] != ']') && t@ == content@.subrange(
                    i,
                    j + 1,
                ),
            None => forall|i: int, j: int|
                0 <= i < content@.len() && 0 <= j < content@.len() && content@[i] == '['
                    && content@[j] == ']' && (forall|q: int| 0 <= q < i ==> content@[q] != '[')
                    && (forall|q: int| j < q < content@.len() ==> content@[q] != ']') ==> j <= i,
        },
{
    let c = chars_of(content);
    let n = c.len();
    let mut i: usize = 0;
    while i < n && c[i] != '['
        invariant
            i <= n,
            n == c.len(),
            c@ == content@,
            forall|q: int| 0 <= q < i ==> c@[q] != '[',
        decreases n - i,
    {
        i = i + 1;
    }
    if i == n {
        return None;
    }
    let mut j: usize = n;
    while j > 0 && c[j - 1] != ']'
        invariant
            j <= n,
            n == c.len(),
            c@ == content@,
            forall|q: int| j <= q < n ==> c@[q] != ']',
        decreases j,
    {
        j = j - 1;
    }
    if j == 0 {
        return None;
    }
    let end = j - 1;
    if end > i {
        let span = sub_chars(c.as_slice(), i, end + 1);
        Some(string_from_chars(span.as_slice()))
    } else {
        None
    }
}

/// Rounds of tool calls a card run may take.
pub const CARD_AGENT_ROUNDS: u32 = 5;

/// Why a card run stopped when the application closes.
pub const CARD_RUN_CANCELLED: &'static str = "应用正在退出，已取消卡片生成";

/// Why a card run stopped when every round asked for tools.
pub const CARD_ROUNDS_EXCEEDED: &'static str = "超过最大工具调用轮次";

/// The report of a card that could not be stored: `card memo_uid={uid}: {detail}`.
pub fn card_error(memo_uid: &str, detail: &str) -> (r: String)
    ensures
        r@ == "card memo_uid="@ + memo_uid@ + ": "@ + detail@,
{
    let mut s = String::from_str("card memo_uid=");
    s.append(memo_uid);
    s.append(": ");
    s.append(detail);
    s
}

/// The statement that records how many memos a deck covers.
pub fn deck_memo_count_query(memo_count: i32, deck_id: i32) -> (q: crate::sql::SqlQuery)
    ensures
        q.sql@ == "UPDATE review_deck SET memo_count = ?1 WHERE id = ?2"@,
        crate::sql::arg_views(q.args@) == seq![
            crate::sql::SqlArg::Integer(memo_count as int),
            crate::sql::SqlArg::Integer(deck_id as int),
        ],
{
    let mut b = crate::sql::SqlBuilder::new();
    b.push_str("UPDATE review_deck SET memo_count = ?1 WHERE id = ?2");
    b.bind(crate::sql::SqlValue::Integer(memo_count as i64));
    b.bind(crate::sql::SqlValue::Integer(deck_id as i64));
    assert(crate::sql::arg_views(b.args@) =~= seq![
        crate::sql::SqlArg::Integer(memo_count as int),
        crate::sql::SqlArg::Integer(deck_id as int),
    ]);
    b.finish()
}

} // verus!
