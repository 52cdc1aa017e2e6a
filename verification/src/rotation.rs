//! Appending a key to a plugin's signing-key rotation chain: the chain is
//! ordered by sequence number, only the current head may endorse the next
//! key, a key may not come back, and each new key's validity starts strictly
//! after its predecessor's.
use vstd::prelude::*;
use crate::sign::{ed25519_signature, sign_message};
use vstd::multiset::Multiset;

verus! {

broadcast use vstd::seq_lib::group_to_multiset_ensures;

/// One key of a rotation chain. The fingerprint is the chain's identifier
/// for the public key, computed by the chain format's fingerprint function.
pub struct KeyEntry {
    pub seq: u64,
    pub public_key: [u8; 32],
    pub fingerprint: [u8; 32],
    /// Unix seconds from which the key is valid.
    pub valid_from: i64,
    /// Fingerprint of the key that endorsed this one (none for the root).
    pub rotation_signed_by: Option<[u8; 32]>,
    /// The endorsing key's signature over the rotation payload.
    pub rotation_signature: Option<[u8; 64]>,
}

/// Entries ordered by non-decreasing sequence number.
pub open spec fn sorted_by_seq(s: Seq<KeyEntry>) -> bool {
    forall|i: int, j: int| 0 <= i <= j < s.len() ==> s[i].seq <= s[j].seq
}

/// The number of leading entries whose sequence number is below `k`: where
/// an entry numbered `k` goes, before every entry with an equal number.
pub open spec fn first_ge(t: Seq<KeyEntry>, k: u64) -> int
    decreases t.len(),
{
    if t.len() == 0 || t[0].seq >= k {
        0
    } else {
        1 + first_ge(t.drop_first(), k)
    }
}

/// The stable ordering by sequence number: the first entry goes in front of
/// the equal-numbered entries of the ordered rest, so entries with equal
/// numbers keep their input order.
pub open spec fn stable_sorted(s: Seq<KeyEntry>) -> Seq<KeyEntry>
    decreases s.len(),
{
    if s.len() == 0 {
        Seq::empty()
    } else {
        let rest = stable_sorted(s.drop_first());
        rest.insert(first_ge(rest, s[0].seq), s[0])
    }
}

proof fn lemma_first_ge(t: Seq<KeyEntry>, k: u64, p: int)
    requires
        0 <= p <= t.len(),
        forall|i: int| 0 <= i < p ==> t[i].seq < k,
        p == t.len() || t[p].seq >= k,
    ensures
        first_ge(t, k) == p,
    decreases p,
{
    if p > 0 {
        let d = t.drop_first();
        assert forall|i: int| 0 <= i < p - 1 implies d[i].seq < k by {
            assert(d[i] == t[i + 1]);
        }
        if p < t.len() {
            assert(d[p - 1] == t[p]);
        }
        lemma_first_ge(d, k, p - 1);
    }
}

/// Order the chain's entries by sequence number (`sort_by_key(|e| e.seq)`):
/// the same entries, sorted; entries with equal numbers keep their order.
pub fn sort_by_seq(entries: Vec<KeyEntry>) -> (r: Vec<KeyEntry>)
    ensures
        r@ == stable_sorted(entries@),
        sorted_by_seq(r@),
        r@.to_multiset() == entries@.to_multiset(),
{
    let ghost all = entries@;
    let mut input = entries;
    let mut out: Vec<KeyEntry> = Vec::new();
    proof {
        assert(all.skip(all.len() as int) =~= Seq::<KeyEntry>::empty());
    }
    while input.len() > 0
        invariant
            sorted_by_seq(out@),
            out@.to_multiset().add(input@.to_multiset()) == all.to_multiset(),
            input@.len() <= all.len(),
            input@ == all.take(input@.len() as int),
            out@ == stable_sorted(all.skip(input@.len() as int)),
        decreases input@.len(),
    {
        let ghost before_in = input@;
        let ghost before_out = out@;
        let x = input.pop().unwrap();
        proof {
            assert(before_in =~= input@.push(x));
        }
        let mut p: usize = 0;
        while p < out.len() && out[p].seq < x.seq
            invariant
                p <= out@.len(),
                out@ == before_out,
                forall|k: int| 0 <= k < p ==> out@[k].seq < x.seq,
            decreases out@.len() - p,
        {
            p = p + 1;
        }
        out.insert(p, x);
        proof {
            assert(out@ == before_out.insert(p as int, x));
            let m = input@.len() as int;
            assert(all.take(m + 1) == before_in);
            assert(x == all[m]);
            assert(input@ =~= all.take(m));
            let tail = all.skip(m);
            assert(tail.drop_first() =~= all.skip(m + 1));
            assert(tail[0] == x);
            lemma_first_ge(before_out, x.seq, p as int);
            assert(out@ == stable_sorted(tail));
            assert forall|i: int, j: int| 0 <= i <= j < out@.len() implies out@[i].seq <= out@[j].seq by {
                if i < p && j < p {
                    assert(out@[i] == before_out[i] && out@[j] == before_out[j]);
                } else if i < p && j == p {
                    assert(out@[i] == before_out[i]);
                } else if i < p && j > p {
                    assert(out@[i] == before_out[i] && out@[j] == before_out[j - 1]);
                } else if i == p && j > p {
                    assert(out@[j] == before_out[j - 1]);
                    assert(before_out[p as int].seq >= x.seq);
                } else if i > p {
                    assert(out@[i] == before_out[i - 1] && out@[j] == before_out[j - 1]);
                }
            }
            assert(out@.to_multiset() == before_out.to_multiset().insert(x));
            assert(before_in.to_multiset() == input@.to_multiset().insert(x));
            assert(out@.to_multiset().add(input@.to_multiset()) =~= all.to_multiset());
        }
    }
    proof {
        assert(input@.to_multiset() =~= Multiset::empty());
        assert(out@.to_multiset() =~= all.to_multiset());
        assert(all.skip(0) =~= all);
    }
    out
}

/// What a rotation appends: the chain id (the root's fingerprint), the new
/// entry's sequence number and its first valid second.
pub struct RotationPlan {
    pub chain_id: [u8; 32],
    pub new_seq: u64,
    pub new_valid_from: i64,
}

pub open spec fn max_i(a: int, b: int) -> int {
    if a >= b {
        a
    } else {
        b
    }
}

/// Whether any entry of the chain has fingerprint `fp`.
pub open spec fn in_chain(s: Seq<KeyEntry>, fp: Seq<u8>) -> bool {
    exists|i: int| 0 <= i < s.len() && s[i].fingerprint@ == fp
}

/// A linked chain: a root without endorsement, then each entry numbered one
/// past its predecessor, valid strictly later, and endorsed by its
/// predecessor's fingerprint; no fingerprint occurs twice.
pub open spec fn chain_linked(s: Seq<KeyEntry>) -> bool {
    &&& s.len() > 0
    &&& s[0].rotation_signed_by is None
    &&& forall|i: int|
        0 < i < s.len() ==> {
            &&& (#[trigger] s[i]).seq == s[i - 1].seq + 1
            &&& s[i].valid_from > s[i - 1].valid_from
            &&& s[i].rotation_signed_by matches Some(f) && f@ == s[i - 1].fingerprint@
        }
    &&& forall|i: int, j: int| 0 <= i < j < s.len() ==> (#[trigger] s[i]).fingerprint@ != (#[trigger] s[j]).fingerprint@
}

/// The rotation from `old_fp` (which must be the head) to `new_fp` (which
/// must be new to the chain), given the requested start `valid_from`: the
/// chain id, the next sequence number, and the start clamped to be strictly
/// after the head's.
pub open spec fn rotation_spec(s: Seq<KeyEntry>, old_fp: Seq<u8>, new_fp: Seq<u8>, valid_from: i64) -> Result<
    (Seq<u8>, int, int),
    Seq<char>,
> {
    if s.len() == 0 {
        Err("manifest has no entries"@)
    } else if old_fp != s.last().fingerprint@ {
        Err("the old key is not the current chain head; rotate from the head key"@)
    } else if in_chain(s, new_fp) {
        Err("the new key already appears in the chain (reuse is forbidden)"@)
    } else {
        Ok((s[0].fingerprint@, s.last().seq + 1, max_i(valid_from as int, s.last().valid_from + 1)))
    }
}

/// The head's sequence number and start can each be moved one step on.
pub open spec fn head_has_room(s: Seq<KeyEntry>) -> bool {
    s.len() > 0 ==> s.last().seq < u64::MAX && s.last().valid_from < i64::MAX
}

fn bytes32_eq(a: &[u8; 32], b: &[u8; 32]) -> (r: bool)
    ensures
        r == (a@ == b@),
{
    let mut i: usize = 0;
    while i < 32
        invariant
            i <= 32,
            a@.len() == 32,
            b@.len() == 32,
            forall|k: int| 0 <= k < i ==> a@[k] == b@[k],
        decreases 32 - i,
    {
        if a[i] != b[i] {
            return false;
        }
        i = i + 1;
    }
    proof {
        assert(a@ =~= b@);
    }
    true
}

/// Check a rotation against the chain (sorted by sequence number) and work
/// out what it appends.
pub fn plan_rotation(entries: &Vec<KeyEntry>, old_fp: &[u8; 32], new_fp: &[u8; 32], valid_from: i64) -> (r:
    Result<RotationPlan, String>)
    requires
        head_has_room(entries@),
    ensures
        match (r, rotation_spec(entries@, old_fp@, new_fp@, valid_from)) {
            (Ok(p), Ok((id, seq, vf))) => p.chain_id@ == id && p.new_seq == seq && p.new_valid_from
                == vf,
            (Err(m), Err(m2)) => m@ == m2,
            _ => false,
        },
{
    let n = entries.len();
    if n == 0 {
        return Err(String::from_str("manifest has no entries"));
    }
    let head = &entries[n - 1];
    if !bytes32_eq(old_fp, &head.fingerprint) {
        return Err(String::from_str("the old key is not the current chain head; rotate from the head key"));
    }
    let mut i: usize = 0;
    while i < n
        invariant
            n == entries@.len(),
            n > 0,
            old_fp@ == entries@.last().fingerprint@,
            i <= n,
            forall|k: int| 0 <= k < i ==> entries@[k].fingerprint@ != new_fp@,
        decreases n - i,
    {
        if bytes32_eq(&entries[i].fingerprint, new_fp) {
            proof {
                assert(in_chain(entries@, new_fp@));
            }
            return Err(String::from_str("the new key already appears in the chain (reuse is forbidden)"));
        }
        i = i + 1;
    }
    let new_seq = head.seq + 1;
    let floor = head.valid_from + 1;
    let new_valid_from = if valid_from >= floor {
        valid_from
    } else {
        floor
    };
    Ok(RotationPlan { chain_id: entries[0].fingerprint, new_seq, new_valid_from })
}

/// The chain a first rotation starts from: the old key alone, as the root,
/// valid from one second before the rotation.
pub fn bootstrap_chain(old_public: &[u8; 32], old_fp: &[u8; 32], valid_from: i64) -> (r: Vec<KeyEntry>)
    requires
        valid_from > i64::MIN,
    ensures
        r@.len() == 1,
        r@[0].seq == 0,
        r@[0].public_key@ == old_public@,
        r@[0].fingerprint@ == old_fp@,
        r@[0].valid_from == valid_from - 1,
        r@[0].rotation_signed_by is None,
        r@[0].rotation_signature is None,
        chain_linked(r@),
{
    let mut v: Vec<KeyEntry> = Vec::new();
    v.push(
        KeyEntry {
            seq: 0,
            public_key: *old_public,
            fingerprint: *old_fp,
            valid_from: valid_from - 1,
            rotation_signed_by: None,
            rotation_signature: None,
        },
    );
    v
}

/// Append the planned entry: the new key, endorsed by the old key's
/// fingerprint and its signature over the rotation payload.
pub fn append_rotation(
    entries: &mut Vec<KeyEntry>,
    plan: &RotationPlan,
    old_secret: &[u8; 32],
    old_fp: &[u8; 32],
    new_public: &[u8; 32],
    new_fp: &[u8; 32],
    payload: &[u8],
)
    ensures
        final(entries)@.len() == old(entries)@.len() + 1,
        final(entries)@.drop_last() == old(entries)@,
        final(entries)@.last().seq == plan.new_seq,
        final(entries)@.last().public_key@ == new_public@,
        final(entries)@.last().fingerprint@ == new_fp@,
        final(entries)@.last().valid_from == plan.new_valid_from,
        final(entries)@.last().rotation_signed_by matches Some(f) && f@ == old_fp@,
        final(entries)@.last().rotation_signature matches Some(sig) && sig@ == ed25519_signature(
            old_secret@,
            payload@,
        ),
{
    let signature = sign_message(old_secret, payload);
    entries.push(
        KeyEntry {
            seq: plan.new_seq,
            public_key: *new_public,
            fingerprint: *new_fp,
            valid_from: plan.new_valid_from,
            rotation_signed_by: Some(*old_fp),
            rotation_signature: Some(signature),
        },
    );
    proof {
        assert(final(entries)@.drop_last() =~= old(entries)@);
    }
}

/// A rotation accepted by [`plan_rotation`] extends the chain soundly: the
/// chain stays ordered by sequence number with the new key as the strictly
/// later head, the root (and so the chain id) is unchanged, the new key's
/// validity starts strictly after its predecessor's and no earlier than
/// requested, and the new fingerprint was not already in the chain.
pub proof fn rotation_extends_chain(
    s: Seq<KeyEntry>,
    old_fp: Seq<u8>,
    new_fp: Seq<u8>,
    valid_from: i64,
    e: KeyEntry,
)
    requires
        sorted_by_seq(s),
        rotation_spec(s, old_fp, new_fp, valid_from) is Ok,
        e.seq == rotation_spec(s, old_fp, new_fp, valid_from)->Ok_0.1,
        e.valid_from == rotation_spec(s, old_fp, new_fp, valid_from)->Ok_0.2,
        e.fingerprint@ == new_fp,
    ensures
        sorted_by_seq(s.push(e)),
        s.push(e).last().seq > s.last().seq,
        s.push(e)[0] == s[0],
        rotation_spec(s, old_fp, new_fp, valid_from)->Ok_0.0 == s.push(e)[0].fingerprint@,
        e.valid_from > s.last().valid_from,
        e.valid_from >= valid_from,
        forall|i: int| 0 <= i < s.len() ==> s[i].fingerprint@ != e.fingerprint@,
        old_fp == s.last().fingerprint@,
{
    assert forall|i: int, j: int| 0 <= i <= j < s.push(e).len() implies s.push(e)[i].seq <= s.push(
        e,
    )[j].seq by {
        if j < s.len() {
            assert(s.push(e)[i] == s[i] && s.push(e)[j] == s[j]);
        } else {
            assert(s.push(e)[j] == e);
            if i < s.len() {
                assert(s.push(e)[i] == s[i]);
                assert(s[i].seq <= s[s.len() - 1].seq);
            }
        }
    }
    assert forall|i: int| 0 <= i < s.len() implies s[i].fingerprint@ != e.fingerprint@ by {
        if s[i].fingerprint@ == e.fingerprint@ {
            assert(in_chain(s, new_fp));
        }
    }
}

/// Rotating keeps a linked chain linked: appending the entry that
/// [`plan_rotation`] and [`append_rotation`] make (next number, start after
/// the head's, endorsed by the head, a new fingerprint) to a linked chain
/// gives a linked chain one key longer, with the new key at its head.
pub proof fn rotation_keeps_chain_linked(
    s: Seq<KeyEntry>,
    old_fp: Seq<u8>,
    new_fp: Seq<u8>,
    valid_from: i64,
    e: KeyEntry,
)
    requires
        chain_linked(s),
        rotation_spec(s, old_fp, new_fp, valid_from) is Ok,
        e.seq == rotation_spec(s, old_fp, new_fp, valid_from)->Ok_0.1,
        e.valid_from == rotation_spec(s, old_fp, new_fp, valid_from)->Ok_0.2,
        e.fingerprint@ == new_fp,
        e.rotation_signed_by matches Some(f) && f@ == old_fp,
    ensures
        chain_linked(s.push(e)),
        s.push(e).len() == s.len() + 1,
        s.push(e).last() == e,
{
    let t = s.push(e);
    assert(t[0] == s[0]);
    assert forall|i: int| 0 < i < t.len() implies {
        &&& (#[trigger] t[i]).seq == t[i - 1].seq + 1
        &&& t[i].valid_from > t[i - 1].valid_from
        &&& t[i].rotation_signed_by matches Some(f) && f@ == t[i - 1].fingerprint@
    } by {
        assert(t[i - 1] == s[i - 1]);
        if i < s.len() {
            assert(t[i] == s[i]);
        } else {
            assert(t[i] == e);
        }
    }
    assert forall|i: int, j: int| 0 <= i < j < t.len() implies (#[trigger] t[i]).fingerprint@ != (
    #[trigger] t[j]).fingerprint@ by {
        assert(t[i] == s[i]);
        if j < s.len() {
            assert(t[j] == s[j]);
        } else {
            assert(t[j] == e);
            if s[i].fingerprint@ == new_fp {
                assert(in_chain(s, new_fp));
            }
        }
    }
}

} // verus!
