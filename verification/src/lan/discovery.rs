//! The cache of peers found on the local network, and the small decisions of the endpoint
//! and of the client around it.
//!
//! A peer that is discovered again replaces its cached entry; one that expires leaves the
//! cache. The cache holds each peer id at most once.
use crate::lan::protocol::{Response, ResponseData};
use crate::lan::{LanError, PeerInfo};
use crate::text::{chars_of, str_equals, string_from_chars, sub_chars};
use vstd::prelude::*;

verus! {

/// Name shown for this device until the user sets one.
pub const DEFAULT_DISPLAY_NAME: &'static str = "LocalFragNote";

/// Setting key of the display name.
pub const DISPLAY_NAME_KEY: &'static str = "lan_display_name";

/// Setting key of the access rules.
pub const ACL_RULES_KEY: &'static str = "lan_acl_rules";

/// Characters of a peer id shown as its name until it tells its own.
pub const PEER_NAME_PREFIX: usize = 8;

/// Length of a stored endpoint secret key.
pub const SECRET_KEY_LEN: usize = 32;

/// The ids of the cached peers, in order.
pub open spec fn peer_ids(ps: Seq<PeerInfo>) -> Seq<Seq<char>> {
    ps.map_values(|p: PeerInfo| p.peer_id@)
}

/// Position of the first cached peer from position `i` on with the id, if any.
pub open spec fn find_peer_from(ps: Seq<PeerInfo>, id: Seq<char>, i: int) -> Option<int>
    decreases ps.len() - i,
{
    if i < 0 || i >= ps.len() {
        None
    } else if ps[i].peer_id@ == id {
        Some(i)
    } else {
        find_peer_from(ps, id, i + 1)
    }
}

/// Position of the first cached peer with the id, if any.
pub open spec fn find_peer(ps: Seq<PeerInfo>, id: Seq<char>) -> Option<int> {
    find_peer_from(ps, id, 0)
}

proof fn lemma_find_peer_at(ps: Seq<PeerInfo>, id: Seq<char>, i: int, k: int)
    requires
        0 <= i <= k <= ps.len(),
        forall|j: int| i <= j < k ==> ps[j].peer_id@ != id,
    ensures
        k < ps.len() && ps[k].peer_id@ == id ==> find_peer_from(ps, id, i) == Some(k),
        k == ps.len() ==> find_peer_from(ps, id, i) is None,
    decreases k - i,
{
    if i < k {
        lemma_find_peer_at(ps, id, i + 1, k);
    }
}

pub open spec fn other_peer(id: Seq<char>) -> spec_fn(PeerInfo) -> bool {
    |p: PeerInfo| p.peer_id@ != id
}

/// Records a discovered peer: it replaces the first cached entry with its id, or is added
/// at the end.
pub fn upsert_peer(peers: &mut Vec<PeerInfo>, info: PeerInfo)
    ensures
        match find_peer(old(peers)@, info.peer_id@) {
            Some(k) => final(peers)@ == old(peers)@.update(k, info),
            None => final(peers)@ == old(peers)@.push(info),
        },
{
    let mut k: usize = 0;
    while k < peers.len()
        invariant
            k <= peers.len(),
            peers@ == old(peers)@,
            forall|j: int| 0 <= j < k ==> peers@[j].peer_id@ != info.peer_id@,
        decreases peers.len() - k,
    {
        if str_equals(peers[k].peer_id.as_str(), info.peer_id.as_str()) {
            proof {
                lemma_find_peer_at(old(peers)@, info.peer_id@, 0, k as int);
            }
            peers.set(k, info);
            return;
        }
        k = k + 1;
    }
    proof {
        lemma_find_peer_at(old(peers)@, info.peer_id@, 0, k as int);
    }
    peers.push(info);
}

/// Drops an expired peer: every cached entry with its id leaves. Returns whether one did.
pub fn remove_peer(peers: &mut Vec<PeerInfo>, peer_id: &str) -> (removed: bool)
    ensures
        final(peers)@ == old(peers)@.filter(other_peer(peer_id@)),
        removed == (final(peers)@.len() != old(peers)@.len()),
{
    let ghost pred = other_peer(peer_id@);
    let ghost orig = peers@;
    let ghost mut j: int = 0;
    let mut k: usize = 0;
    let mut removed = false;
    assert(orig.take(0).filter(pred) =~= Seq::<PeerInfo>::empty()) by {
        reveal_with_fuel(Seq::filter, 1);
    }
    while k < peers.len()
        invariant
            orig == old(peers)@,
            pred == other_peer(peer_id@),
            0 <= k <= peers.len(),
            0 <= j <= orig.len(),
            peers@.take(k as int) == orig.take(j).filter(pred),
            peers@.skip(k as int) == orig.skip(j),
            removed == (j != k),
        decreases peers.len() - k,
    {
        proof {
            assert(peers@.skip(k as int).len() > 0);
            assert(j < orig.len());
            reveal_with_fuel(Seq::filter, 1);
            assert(orig.take(j + 1).drop_last() =~= orig.take(j));
            assert(orig.skip(j)[0] == orig[j]);
            assert(peers@.skip(k as int)[0] == peers@[k as int]);
        }
        if str_equals(peers[k].peer_id.as_str(), peer_id) {
            let ghost before = peers@;
            peers.remove(k);
            proof {
                assert(peers@.take(k as int) =~= before.take(k as int));
                assert(peers@.skip(k as int) =~= before.skip(k + 1));
                assert(before.skip(k + 1) =~= before.skip(k as int).skip(1));
                assert(orig.skip(j + 1) =~= orig.skip(j).skip(1));
                j = j + 1;
            }
            removed = true;
        } else {
            proof {
                assert(peers@.take(k + 1) =~= peers@.take(k as int).push(peers@[k as int]));
                assert(peers@.skip(k + 1) =~= peers@.skip(k as int).skip(1));
                assert(orig.skip(j + 1) =~= orig.skip(j).skip(1));
                j = j + 1;
            }
            k = k + 1;
        }
    }
    proof {
        assert(peers@.take(k as int) =~= peers@);
        assert(orig.skip(j).len() == 0);
        assert(orig.take(j) =~= orig);
        orig.lemma_filter_len(pred);
    }
    removed
}

/// The name a newly discovered peer is shown with: the first characters of its id.
pub fn peer_id_chars_prefix(peer_id: &str, n: usize) -> (r: String)
    ensures
        r@ == if peer_id@.len() <= n {
            peer_id@
        } else {
            peer_id@.take(n as int)
        },
{
    let c = chars_of(peer_id);
    let end = if c.len() <= n {
        c.len()
    } else {
        n
    };
    let t = sub_chars(c.as_slice(), 0, end);
    assert(c@.subrange(0, c@.len() as int) =~= c@);
    string_from_chars(t.as_slice())
}

/// The stored display name, or the default one when none is stored.
pub fn display_name_or_default(stored: Option<String>) -> (r: String)
    ensures
        r@ == match stored {
            Some(s) => s@,
            None => DEFAULT_DISPLAY_NAME@,
        },
{
    match stored {
        Some(s) => s,
        None => String::from_str(DEFAULT_DISPLAY_NAME),
    }
}

/// The stored access rules JSON, or an empty list when none is stored.
pub fn acl_json_or_default(stored: Option<String>) -> (r: String)
    ensures
        r@ == match stored {
            Some(s) => s@,
            None => "[]"@,
        },
{
    match stored {
        Some(s) => s,
        None => String::from_str("[]"),
    }
}

/// A stored secret key: exactly 32 bytes, else the key file is refused.
pub fn secret_key_bytes(bytes: &Vec<u8>) -> (r: Result<[u8; 32], LanError>)
    ensures
        bytes.len() == SECRET_KEY_LEN ==> (r matches Ok(a) && a@ == bytes@),
        bytes.len() != SECRET_KEY_LEN ==> (r matches Err(LanError::LocalStore(m)) && m@
            == "invalid secret key file"@),
{
    if bytes.len() != SECRET_KEY_LEN {
        return Err(LanError::LocalStore(String::from_str("invalid secret key file")));
    }
    let mut a: [u8; 32] = [0u8; 32];
    let mut k: usize = 0;
    while k < 32
        invariant
            k <= 32,
            bytes.len() == 32,
            forall|j: int| 0 <= j < k ==> a@[j] == bytes@[j],
        decreases 32 - k,
    {
        a.set(k, bytes[k]);
        k = k + 1;
    }
    assert(a@ =~= bytes@);
    Ok(a)
}

/// What a peer's answer means to the caller: its data, or a remote error with its code and
/// message.
pub fn response_result(resp: Response) -> (r: Result<ResponseData, LanError>)
    ensures
        match resp {
            Response::Success { data } => r == Ok::<ResponseData, LanError>(data),
            Response::Failure { code, message } => r == Err::<ResponseData, LanError>(
                LanError::Remote(code, message),
            ),
        },
{
    match resp {
        Response::Success { data } => Ok(data),
        Response::Failure { code, message } => Err(LanError::Remote(code, message)),
    }
}

/// The error of a sharing command that is not available yet.
pub fn not_implemented() -> (e: crate::error::IpcError)
    ensures
        e matches crate::error::IpcError::Lan(m) && m@ == "not implemented"@,
{
    crate::error::IpcError::Lan(String::from_str("not implemented"))
}

proof fn lemma_find_peer(ps: Seq<PeerInfo>, id: Seq<char>)
    ensures
        match find_peer(ps, id) {
            Some(k) => 0 <= k < ps.len() && ps[k].peer_id@ == id && forall|j: int|
                0 <= j < k ==> ps[j].peer_id@ != id,
            None => forall|j: int| 0 <= j < ps.len() ==> ps[j].peer_id@ != id,
        },
{
    lemma_find_peer_from(ps, id, 0);
}

proof fn lemma_find_peer_from(ps: Seq<PeerInfo>, id: Seq<char>, i: int)
    requires
        0 <= i <= ps.len(),
    ensures
        match find_peer_from(ps, id, i) {
            Some(k) => i <= k < ps.len() && ps[k].peer_id@ == id && forall|j: int|
                i <= j < k ==> ps[j].peer_id@ != id,
            None => forall|j: int| i <= j < ps.len() ==> ps[j].peer_id@ != id,
        },
    decreases ps.len() - i,
{
    if i < ps.len() {
        lemma_find_peer_from(ps, id, i + 1);
    }
}

/// Discovering a peer leaves exactly one cached entry with its id, holding what was
/// discovered, when the cache held each id at most once before; the other entries stay.
pub proof fn law_upsert_keeps_ids_distinct(ps: Seq<PeerInfo>, info: PeerInfo, after: Seq<PeerInfo>)
    requires
        peer_ids(ps).no_duplicates(),
        after == match find_peer(ps, info.peer_id@) {
            Some(k) => ps.update(k, info),
            None => ps.push(info),
        },
    ensures
        peer_ids(after).no_duplicates(),
        find_peer(after, info.peer_id@) matches Some(k) && after[k] == info,
        forall|p: PeerInfo| ps.contains(p) && p.peer_id@ != info.peer_id@ ==> after.contains(p),
{
    lemma_find_peer(ps, info.peer_id@);
    lemma_find_peer(after, info.peer_id@);
    match find_peer(ps, info.peer_id@) {
        Some(k) => {
            assert(peer_ids(after) =~= peer_ids(ps)) by {
                assert forall|i: int| 0 <= i < ps.len() implies peer_ids(after)[i] == peer_ids(
                    ps,
                )[i] by {
                    if i == k {
                        assert(after[k] == info);
                    } else {
                        assert(after[i] == ps[i]);
                    }
                }
            }
            assert(after[k].peer_id@ == info.peer_id@);
            assert forall|j: int| 0 <= j < k implies after[j].peer_id@ != info.peer_id@ by {
                assert(after[j] == ps[j]);
            }
            assert forall|p: PeerInfo| ps.contains(p) && p.peer_id@ != info.peer_id@ implies after.contains(p) by {
                let w = choose|w: int| 0 <= w < ps.len() && ps[w] == p;
                assert(w != k);
                assert(after[w] == p);
            }
        },
        None => {
            let n = ps.len() as int;
            assert(peer_ids(after) =~= peer_ids(ps).push(info.peer_id@));
            assert forall|i: int, j: int|
                0 <= i < peer_ids(after).len() && 0 <= j < peer_ids(after).len() && i != j implies
                peer_ids(after)[i] != peer_ids(after)[j] by {
                if j == n {
                    assert(peer_ids(after)[i] == ps[i].peer_id@);
                } else if i == n {
                    assert(peer_ids(after)[j] == ps[j].peer_id@);
                } else {
                    assert(peer_ids(after)[i] == peer_ids(ps)[i]);
                    assert(peer_ids(after)[j] == peer_ids(ps)[j]);
                }
            }
            assert(after[n] == info);
            assert forall|j: int| 0 <= j < n implies after[j].peer_id@ != info.peer_id@ by {
                assert(after[j] == ps[j]);
            }
            assert forall|p: PeerInfo| ps.contains(p) && p.peer_id@ != info.peer_id@ implies after.contains(p) by {
                let w = choose|w: int| 0 <= w < ps.len() && ps[w] == p;
                assert(after[w] == p);
            }
        },
    }
}

/// After a peer expires, no cached entry has its id and every other entry stays.
pub proof fn law_expired_peer_is_gone(ps: Seq<PeerInfo>, id: Seq<char>)
    ensures
        forall|k: int|
            0 <= k < ps.filter(other_peer(id)).len() ==> ps.filter(other_peer(id))[k].peer_id@
                != id,
        forall|p: PeerInfo| ps.contains(p) && p.peer_id@ != id ==> ps.filter(other_peer(id)).contains(p),
{
    let f = ps.filter(other_peer(id));
    assert forall|k: int| 0 <= k < f.len() implies f[k].peer_id@ != id by {
        ps.filter_lemma(other_peer(id));
    }
    assert forall|p: PeerInfo| ps.contains(p) && p.peer_id@ != id implies f.contains(p) by {
        let w = choose|w: int| 0 <= w < ps.len() && ps[w] == p;
        ps.lemma_filter_contains(other_peer(id), w);
    }
}

} // verus!
