use conductor_tools::rotation::{append_rotation, bootstrap_chain, plan_rotation, sort_by_seq, KeyEntry};
use ed25519_dalek::{Signer, SigningKey};

/// (private, public, fingerprint) for a fixed seed. The fingerprint here is
/// a stand-in identifier: the public key with its first byte flipped.
fn key_pair(seed: u8) -> ([u8; 32], [u8; 32], [u8; 32]) {
    let private = [seed; 32];
    let public = SigningKey::from_bytes(&private).verifying_key().to_bytes();
    let mut fp = public;
    fp[0] ^= 0xFF;
    (private, public, fp)
}

/// One rotation step as the signing tool runs it.
fn rotate(
    existing: Option<Vec<KeyEntry>>,
    old: ([u8; 32], [u8; 32], [u8; 32]),
    new: ([u8; 32], [u8; 32], [u8; 32]),
    valid_from: i64,
) -> Result<Vec<KeyEntry>, String> {
    let entries = match existing {
        Some(e) => e,
        None => bootstrap_chain(&old.1, &old.2, valid_from),
    };
    let mut entries = sort_by_seq(entries);
    let plan = plan_rotation(&entries, &old.2, &new.2, valid_from)?;
    let payload = [plan.new_seq as u8];
    append_rotation(&mut entries, &plan, &old.0, &old.2, &new.1, &new.2, &payload);
    Ok(entries)
}

#[test]
fn rotation_bootstrap_builds_a_two_key_chain() {
    let k1 = key_pair(1);
    let k2 = key_pair(2);
    let chain = rotate(None, k1, k2, 1_000).unwrap();
    assert_eq!(chain.len(), 2);
    assert_eq!(chain[0].seq, 0);
    assert_eq!(chain[0].valid_from, 999);
    assert_eq!(chain[1].seq, 1);
    assert_eq!(chain[1].valid_from, 1_000);
    assert_eq!(chain[1].public_key, k2.1);
    assert_eq!(chain[1].rotation_signed_by, Some(k1.2));
    assert_eq!(chain[1].rotation_signature, Some(SigningKey::from_bytes(&k1.0).sign(&[1]).to_bytes()));
}

#[test]
fn rotation_append_extends_existing_chain() {
    let k1 = key_pair(1);
    let k2 = key_pair(2);
    let k3 = key_pair(3);
    let m1 = rotate(None, k1, k2, 1_000).unwrap();
    let m2 = rotate(Some(m1), k2, k3, 2_000).unwrap();
    assert_eq!(m2.len(), 3);
    assert_eq!(m2[2].seq, 2);
    assert_eq!(m2[2].rotation_signed_by, Some(k2.2));
}

#[test]
fn rotation_from_non_head_key_is_rejected() {
    let k1 = key_pair(1);
    let k2 = key_pair(2);
    let k3 = key_pair(3);
    let m1 = rotate(None, k1, k2, 1_000).unwrap();
    let err = rotate(Some(m1), k1, k3, 2_000).err().unwrap();
    assert_eq!(err, "the old key is not the current chain head; rotate from the head key");
}

#[test]
fn rotation_reusing_an_existing_key_is_rejected() {
    let k1 = key_pair(1);
    let k2 = key_pair(2);
    let m1 = rotate(None, k1, k2, 1_000).unwrap();
    let err = rotate(Some(m1), k2, k1, 2_000).err().unwrap();
    assert_eq!(err, "the new key already appears in the chain (reuse is forbidden)");
}

#[test]
fn valid_from_is_clamped_past_the_head() {
    let k1 = key_pair(1);
    let k2 = key_pair(2);
    let k3 = key_pair(3);
    let m1 = rotate(None, k1, k2, 1_000).unwrap();
    let m2 = rotate(Some(m1), k2, k3, 10).unwrap();
    assert_eq!(m2[2].valid_from, 1_001);
}

#[test]
fn empty_manifest_is_refused() {
    let k1 = key_pair(1);
    let k2 = key_pair(2);
    assert_eq!(plan_rotation(&vec![], &k1.2, &k2.2, 5).err(), Some("manifest has no entries".to_string()));
}

#[test]
fn chain_is_sorted_by_sequence_number() {
    let k1 = key_pair(1);
    let k2 = key_pair(2);
    let k3 = key_pair(3);
    let mut chain = rotate(Some(rotate(None, k1, k2, 1_000).unwrap()), k2, k3, 2_000).unwrap();
    chain.reverse();
    let sorted = sort_by_seq(chain);
    let seqs: Vec<u64> = sorted.iter().map(|e| e.seq).collect();
    assert_eq!(seqs, vec![0, 1, 2]);
}

#[test]
fn sorting_keeps_equal_sequence_numbers_in_order() {
    let entry = |seq: u64, tag: u8| KeyEntry {
        seq,
        public_key: [tag; 32],
        fingerprint: [tag; 32],
        valid_from: 0,
        rotation_signed_by: None,
        rotation_signature: None,
    };
    let sorted = sort_by_seq(vec![entry(2, 1), entry(1, 2), entry(2, 3), entry(1, 4), entry(0, 5)]);
    let order: Vec<(u64, u8)> = sorted.iter().map(|e| (e.seq, e.public_key[0])).collect();
    assert_eq!(order, vec![(0, 5), (1, 2), (1, 4), (2, 1), (2, 3)]);
}
