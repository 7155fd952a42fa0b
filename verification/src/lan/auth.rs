//! Per-peer access rules over tags.
//!
//! A peer with no rule of its own sees every memo. Once it has rules, the tags of its allow
//! rules are pooled, and so are those of its deny rules: a memo is visible when no allow tag
//! is listed or the memo carries one of them, and it carries no deny tag.
use crate::markdown::{extract_tags, string_views, tags_of};
use crate::memo::{clone_memo, Memo};
use crate::text::{chars_of, extend_chars, str_equals, string_from_chars};
use vstd::prelude::*;

verus! {

/// Whether a rule lets a peer see the tags it lists, or hides them.
#[derive(Debug, Clone, Copy, PartialEq, Eq)]
pub enum AclMode {
    Allow,
    Deny,
}

/// One access rule of one peer.
#[derive(Debug, Clone)]
pub struct AclRule {
    /// The peer's endpoint id.
    pub peer_id: String,
    /// A name for the peer, for the user's eyes only.
    pub display_name: Option<String>,
    pub mode: AclMode,
    /// The tags the rule matches.
    pub tags: Vec<String>,
}

impl AclMode {
    /// Reads `allow` or `deny`; any other text is refused with `invalid acl mode: ` and the
    /// text.
    pub fn parse(s: &str) -> (r: Result<AclMode, String>)
        ensures
            s@ == "allow"@ ==> r == Ok::<AclMode, String>(AclMode::Allow),
            s@ == "deny"@ ==> r == Ok::<AclMode, String>(AclMode::Deny),
            s@ != "allow"@ && s@ != "deny"@ ==> (r matches Err(e) && e@ == "invalid acl mode: "@
                + s@),
    {
        proof {
            reveal_strlit("allow");
            reveal_strlit("deny");
            assert("deny"@[0] != "allow"@[0]);
        }
        if str_equals(s, "allow") {
            Ok(AclMode::Allow)
        } else if str_equals(s, "deny") {
            Ok(AclMode::Deny)
        } else {
            let mut msg = chars_of("invalid acl mode: ");
            let rest = chars_of(s);
            extend_chars(&mut msg, rest.as_slice());
            Err(string_from_chars(msg.as_slice()))
        }
    }
}

/// Whether a rule belongs to the peer and has the given mode.
pub open spec fn rule_applies(r: AclRule, peer: Seq<char>, mode: AclMode) -> bool {
    r.peer_id@ == peer && r.mode == mode
}

/// Whether some rule of the peer with the given mode lists the tag.
pub open spec fn tag_listed(rules: Seq<AclRule>, peer: Seq<char>, mode: AclMode, t: Seq<char>) -> bool {
    exists|i: int|
        0 <= i < rules.len() && rule_applies(rules[i], peer, mode) && #[trigger] string_views(
            rules[i].tags@,
        ).contains(t)
}

/// Whether the rules of the peer with the given mode list no tag at all.
pub open spec fn none_listed(rules: Seq<AclRule>, peer: Seq<char>, mode: AclMode) -> bool {
    forall|i: int|
        0 <= i < rules.len() && rule_applies(#[trigger] rules[i], peer, mode) ==> rules[i].tags.len()
            == 0
}

/// Whether the peer has any rule of its own.
pub open spec fn has_rules(rules: Seq<AclRule>, peer: Seq<char>) -> bool {
    exists|i: int| 0 <= i < rules.len() && #[trigger] rules[i].peer_id@ == peer
}

/// Whether one of the tags is listed by a rule of the peer with the given mode.
pub open spec fn any_listed(
    tags: Seq<Seq<char>>,
    rules: Seq<AclRule>,
    peer: Seq<char>,
    mode: AclMode,
) -> bool {
    exists|k: int| 0 <= k < tags.len() && tag_listed(rules, peer, mode, #[trigger] tags[k])
}

/// Whether a memo with this content is visible to the peer under the rules.
pub open spec fn visible_to(content: Seq<char>, peer: Seq<char>, rules: Seq<AclRule>) -> bool {
    let tags = tags_of(content);
    !has_rules(rules, peer) || ((none_listed(rules, peer, AclMode::Allow) || any_listed(
        tags,
        rules,
        peer,
        AclMode::Allow,
    )) && !any_listed(tags, rules, peer, AclMode::Deny))
}

pub open spec fn visible_pred(peer: Seq<char>, rules: Seq<AclRule>) -> spec_fn(Memo) -> bool {
    |m: Memo| visible_to(m.content@, peer, rules)
}

fn same_mode(a: AclMode, b: AclMode) -> (r: bool)
    ensures
        r == (a == b),
{
    match (a, b) {
        (AclMode::Allow, AclMode::Allow) => true,
        (AclMode::Deny, AclMode::Deny) => true,
        _ => false,
    }
}

/// Whether the peer has any rule of its own.
fn peer_has_rules(rules: &[AclRule], peer: &str) -> (r: bool)
    ensures
        r == has_rules(rules@, peer@),
{
    let mut i: usize = 0;
    while i < rules.len()
        invariant
            i <= rules.len(),
            forall|q: int| 0 <= q < i ==> rules@[q].peer_id@ != peer@,
        decreases rules.len() - i,
    {
        if str_equals(rules[i].peer_id.as_str(), peer) {
            return true;
        }
        i = i + 1;
    }
    false
}

/// Whether the rules of the peer with the given mode list no tag.
fn peer_lists_none(rules: &[AclRule], peer: &str, mode: AclMode) -> (r: bool)
    ensures
        r == none_listed(rules@, peer@, mode),
{
    let mut i: usize = 0;
    while i < rules.len()
        invariant
            i <= rules.len(),
            forall|q: int|
                0 <= q < i && rule_applies(#[trigger] rules@[q], peer@, mode) ==> rules@[q].tags.len()
                    == 0,
        decreases rules.len() - i,
    {
        if same_mode(rules[i].mode, mode) && str_equals(rules[i].peer_id.as_str(), peer)
            && rules[i].tags.len() > 0 {
            assert(rule_applies(rules@[i as int], peer@, mode));
            return false;
        }
        i = i + 1;
    }
    true
}

/// Whether the tags include `t`.
fn tags_contain(tags: &Vec<String>, t: &str) -> (r: bool)
    ensures
        r == string_views(tags@).contains(t@),
{
    let mut k: usize = 0;
    while k < tags.len()
        invariant
            k <= tags.len(),
            forall|q: int| 0 <= q < k ==> tags@[q]@ != t@,
        decreases tags.len() - k,
    {
        if str_equals(tags[k].as_str(), t) {
            assert(string_views(tags@)[k as int] == t@);
            return true;
        }
        k = k + 1;
    }
    proof {
        if string_views(tags@).contains(t@) {
            let q = choose|q: int| 0 <= q < string_views(tags@).len() && string_views(tags@)[q] == t@;
            assert(tags@[q]@ == t@);
        }
    }
    false
}

/// Whether some rule of the peer with the given mode lists `t`.
fn is_listed(rules: &[AclRule], peer: &str, mode: AclMode, t: &str) -> (r: bool)
    ensures
        r == tag_listed(rules@, peer@, mode, t@),
{
    let mut i: usize = 0;
    while i < rules.len()
        invariant
            i <= rules.len(),
            forall|q: int|
                0 <= q < i && rule_applies(rules@[q], peer@, mode) ==> !(#[trigger] string_views(
                    rules@[q].tags@,
                ).contains(t@)),
        decreases rules.len() - i,
    {
        if same_mode(rules[i].mode, mode) && str_equals(rules[i].peer_id.as_str(), peer) {
            if tags_contain(&rules[i].tags, t) {
                return true;
            }
        }
        i = i + 1;
    }
    false
}

/// Whether one of `tags` is listed by a rule of the peer with the given mode.
fn some_listed(rules: &[AclRule], peer: &str, mode: AclMode, tags: &Vec<String>) -> (r: bool)
    ensures
        r == any_listed(string_views(tags@), rules@, peer@, mode),
{
    let mut k: usize = 0;
    while k < tags.len()
        invariant
            k <= tags.len(),
            forall|q: int| 0 <= q < k ==> !tag_listed(rules@, peer@, mode, #[trigger] tags@[q]@),
        decreases tags.len() - k,
    {
        if is_listed(rules, peer, mode, tags[k].as_str()) {
            assert(string_views(tags@)[k as int] == tags@[k as int]@);
            return true;
        }
        k = k + 1;
    }
    proof {
        assert forall|q: int|
            0 <= q < string_views(tags@).len() implies !tag_listed(
            rules@,
            peer@,
            mode,
            #[trigger] string_views(tags@)[q],
        ) by {
            assert(string_views(tags@)[q] == tags@[q]@);
        }
    }
    false
}

/// Whether the memo may be shown to the peer.
pub fn is_memo_visible(memo: &Memo, peer_id: &str, rules: &[AclRule]) -> (r: bool)
    ensures
        r == visible_to(memo.content@, peer_id@, rules@),
{
    if !peer_has_rules(rules, peer_id) {
        return true;
    }
    let tags = extract_tags(memo.content.as_str());
    let allow_pass = peer_lists_none(rules, peer_id, AclMode::Allow) || some_listed(
        rules,
        peer_id,
        AclMode::Allow,
        &tags,
    );
    let deny_hit = some_listed(rules, peer_id, AclMode::Deny, &tags);
    allow_pass && !deny_hit
}

/// The memos visible to the peer, in their order.
pub fn filter_memos_for_peer(memos: Vec<Memo>, peer_id: &str, rules: &[AclRule]) -> (r: Vec<Memo>)
    ensures
        r@ == memos@.filter(visible_pred(peer_id@, rules@)),
{
    let ghost pred = visible_pred(peer_id@, rules@);
    let mut out: Vec<Memo> = Vec::new();
    let mut k: usize = 0;
    while k < memos.len()
        invariant
            k <= memos.len(),
            pred == visible_pred(peer_id@, rules@),
            out@ == memos@.take(k as int).filter(pred),
        decreases memos.len() - k,
    {
        proof {
            reveal_with_fuel(Seq::filter, 1);
            assert(memos@.take(k + 1).drop_last() =~= memos@.take(k as int));
        }
        if is_memo_visible(&memos[k], peer_id, rules) {
            out.push(clone_memo(&memos[k]));
        }
        k = k + 1;
    }
    assert(memos@.take(memos.len() as int) =~= memos@);
    out
}

/// Law: a peer without rules of its own sees every memo (sharing is open by default): the
/// filter keeps the whole list.
pub proof fn law_acl_default_open(memos: Seq<Memo>, peer: Seq<char>, rules: Seq<AclRule>)
    requires
        !has_rules(rules, peer),
    ensures
        memos.filter(visible_pred(peer, rules)) == memos,
    decreases memos.len(),
{
    reveal_with_fuel(Seq::filter, 1);
    if memos.len() > 0 {
        law_acl_default_open(memos.drop_last(), peer, rules);
        assert(visible_pred(peer, rules)(memos.last()));
        assert(memos.drop_last().push(memos.last()) =~= memos);
    } else {
        assert(memos.filter(visible_pred(peer, rules)) =~= memos);
    }
}

/// Law: a memo carrying a tag that a deny rule of the peer lists is hidden from the peer,
/// whatever its allow rules say.
pub proof fn law_acl_deny_wins(content: Seq<char>, peer: Seq<char>, rules: Seq<AclRule>, t: Seq<char>, i: int)
    requires
        tags_of(content).contains(t),
        0 <= i < rules.len(),
        rules[i].peer_id@ == peer,
        rules[i].mode == AclMode::Deny,
        string_views(rules[i].tags@).contains(t),
    ensures
        !visible_to(content, peer, rules),
{
    let k = tags_of(content).index_of(t);
    assert(tag_listed(rules, peer, AclMode::Deny, tags_of(content)[k]));
    assert(has_rules(rules, peer));
}

/// Law: with allow rules that list tags and no deny rule hitting it, a memo is visible to
/// the peer exactly when it carries one of the allowed tags.
pub proof fn law_acl_allow_limits(content: Seq<char>, peer: Seq<char>, rules: Seq<AclRule>)
    requires
        has_rules(rules, peer),
        !none_listed(rules, peer, AclMode::Allow),
        !any_listed(tags_of(content), rules, peer, AclMode::Deny),
    ensures
        visible_to(content, peer, rules) == any_listed(tags_of(content), rules, peer, AclMode::Allow),
{
}

/// Law: the single-memo check agrees with the list filter: a memo is visible exactly when
/// filtering the list made of it alone keeps it.
pub proof fn law_visible_is_filter_of_one(m: Memo, peer: Seq<char>, rules: Seq<AclRule>)
    ensures
        visible_to(m.content@, peer, rules) <==> seq![m].filter(visible_pred(peer, rules)).len() > 0,
{
    reveal_with_fuel(Seq::filter, 2);
    assert(seq![m].drop_last() =~= Seq::<Memo>::empty());
    assert(seq![m].last() == m);
}

} // verus!
