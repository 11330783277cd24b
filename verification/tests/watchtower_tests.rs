//! Watchtower scenarios: registration, sequence monotonicity, snapshots,
//! entry ranges, and the empty snapshot.

use roster_attest::codec::enc;
use roster_attest::crypto::sha256;
use roster_attest::merkle::{leaf_hash, merkle_root};
use roster_attest::party::build_prr;
use roster_attest::types::PartyRegistrationRecord;
use roster_attest::watchtower::{WatchtowerError, WatchtowerState};

fn seed(n: u8) -> Vec<u8> {
    vec![n; 32]
}

fn nonce(n: u8) -> Vec<u8> {
    vec![n; 16]
}

fn prr(epoch: u64, pid: u64, ep: &[u8], key: u8, seq: u64) -> PartyRegistrationRecord {
    build_prr(epoch, pid, ep.to_vec(), &seed(key), seq, nonce(key))
}

#[test]
fn fresh_epoch_single_party() {
    let mut wt = WatchtowerState::new(1, seed(200));
    let srs = wt.register(prr(1, 7, b"10.0.0.7:9000", 7, 1)).unwrap();
    assert_eq!(srs.msg.epoch, 1);
    assert_eq!(srs.msg.log_len, 1);
    let entries = wt.entries(1, 1).unwrap();
    assert_eq!(entries.len(), 1);
    assert_eq!(entries[0].msg.party_id, 7);
    assert_eq!(entries[0].msg.endpoint.addr, b"10.0.0.7:9000".to_vec());
}

#[test]
fn three_parties_interleaved_updates() {
    let mut wt = WatchtowerState::new(1, seed(200));
    wt.register(prr(1, 1, b"10.0.0.1:9000", 1, 1)).unwrap();
    wt.register(prr(1, 2, b"10.0.0.2:9000", 2, 1)).unwrap();
    wt.register(prr(1, 3, b"10.0.0.3:9000", 3, 1)).unwrap();
    let srs = wt.register(prr(1, 2, b"10.0.0.2:9001", 2, 2)).unwrap();
    assert_eq!(srs.msg.log_len, 4);
}

#[test]
fn replay_is_rejected_and_log_unchanged() {
    let mut wt = WatchtowerState::new(1, seed(200));
    wt.register(prr(1, 2, b"10.0.0.2:9000", 2, 1)).unwrap();
    let replay = prr(1, 2, b"10.0.0.2:9001", 2, 2);
    wt.register(replay.clone()).unwrap();
    let before = wt.snapshot();
    assert_eq!(wt.register(replay), Err(WatchtowerError::NonMonotonicSeq));
    let after = wt.snapshot();
    assert_eq!(before.msg, after.msg);
    assert_eq!(after.msg.log_len, 2);
}

#[test]
fn equal_seq_is_rejected() {
    let mut wt = WatchtowerState::new(1, seed(200));
    wt.register(prr(1, 5, b"10.0.0.5:9000", 5, 3)).unwrap();
    assert_eq!(
        wt.register(prr(1, 5, b"10.0.0.5:9001", 5, 3)),
        Err(WatchtowerError::NonMonotonicSeq)
    );
    // A lower seq is rejected too; a higher one is accepted even with a gap.
    assert_eq!(
        wt.register(prr(1, 5, b"10.0.0.5:9001", 5, 2)),
        Err(WatchtowerError::NonMonotonicSeq)
    );
    assert!(wt.register(prr(1, 5, b"10.0.0.5:9001", 5, 10)).is_ok());
}

#[test]
fn first_seq_may_be_any_value() {
    let mut wt = WatchtowerState::new(1, seed(200));
    let srs = wt.register(prr(1, 5, b"10.0.0.5:9000", 5, 41)).unwrap();
    assert_eq!(srs.msg.log_len, 1);
}

#[test]
fn epoch_mismatch_is_rejected() {
    let mut wt = WatchtowerState::new(2, seed(200));
    assert_eq!(
        wt.register(prr(1, 7, b"10.0.0.7:9000", 7, 1)),
        Err(WatchtowerError::EpochMismatch)
    );
    let srs = wt.snapshot();
    assert_eq!(srs.msg.log_len, 0);
}

#[test]
fn tampered_signature_is_rejected() {
    let mut wt = WatchtowerState::new(1, seed(200));
    let mut record = prr(1, 7, b"10.0.0.7:9000", 7, 1);
    record.sig_party[0] ^= 1;
    assert_eq!(wt.register(record), Err(WatchtowerError::BadSignature));
}

#[test]
fn invalid_party_key_is_rejected() {
    let mut wt = WatchtowerState::new(1, seed(200));
    // Find key bytes the curve refuses to decode.
    let mut bad_pk = None;
    for n in 0..=255u8 {
        let cand = [n; 32];
        if ed25519_dalek::VerifyingKey::from_bytes(&cand).is_err() {
            bad_pk = Some(cand.to_vec());
            break;
        }
    }
    let mut record = prr(1, 7, b"10.0.0.7:9000", 7, 1);
    record.msg.pk_party = bad_pk.unwrap();
    assert_eq!(wt.register(record), Err(WatchtowerError::BadKey));
}

#[test]
fn empty_snapshot_commits_to_hash_of_empty_string() {
    let wt = WatchtowerState::new(1, seed(200));
    let srs = wt.snapshot();
    assert_eq!(srs.msg.log_len, 0);
    assert_eq!(srs.msg.merkle_root, sha256(&[]));
}

#[test]
fn snapshot_root_matches_recomputed_log_root() {
    let mut wt = WatchtowerState::new(1, seed(200));
    wt.register(prr(1, 1, b"10.0.0.1:9000", 1, 1)).unwrap();
    wt.register(prr(1, 2, b"10.0.0.2:9000", 2, 1)).unwrap();
    let srs = wt.snapshot();
    let entries = wt.entries(1, 2).unwrap();
    let leaves: Vec<Vec<u8>> = entries.iter().map(|p| leaf_hash(&enc(p))).collect();
    assert_eq!(merkle_root(leaves), srs.msg.merkle_root);
}

#[test]
fn snapshots_commit_to_consistent_prefixes() {
    let mut wt = WatchtowerState::new(1, seed(200));
    let s1 = wt.register(prr(1, 1, b"10.0.0.1:9000", 1, 1)).unwrap();
    wt.register(prr(1, 2, b"10.0.0.2:9000", 2, 1)).unwrap();
    // Recompute the root of the first s1.log_len entries of the longer log.
    let prefix = wt.entries(1, s1.msg.log_len).unwrap();
    let leaves: Vec<Vec<u8>> = prefix.iter().map(|p| leaf_hash(&enc(p))).collect();
    assert_eq!(merkle_root(leaves), s1.msg.merkle_root);
}

#[test]
fn entries_ranges_are_checked() {
    let mut wt = WatchtowerState::new(1, seed(200));
    wt.register(prr(1, 1, b"10.0.0.1:9000", 1, 1)).unwrap();
    wt.register(prr(1, 2, b"10.0.0.2:9000", 2, 1)).unwrap();
    assert_eq!(wt.entries(0, 1).unwrap_err(), WatchtowerError::BadRange);
    assert_eq!(wt.entries(1, 0).unwrap_err(), WatchtowerError::BadRange);
    assert_eq!(wt.entries(2, 1).unwrap_err(), WatchtowerError::BadRange);
    assert_eq!(wt.entries(1, 3).unwrap_err(), WatchtowerError::BadRange);
    let all = wt.entries(1, 2).unwrap();
    assert_eq!(all.len(), 2);
    assert_eq!(all[0].msg.party_id, 1);
    assert_eq!(all[1].msg.party_id, 2);
    let second = wt.entries(2, 2).unwrap();
    assert_eq!(second.len(), 1);
    assert_eq!(second[0].msg.party_id, 2);
}

#[test]
fn watchtower_pubkey_matches_seed_derivation() {
    let wt = WatchtowerState::new(1, seed(200));
    let mut s = [0u8; 32];
    s.copy_from_slice(&seed(200));
    let expected = ed25519_dalek::SigningKey::from_bytes(&s).verifying_key().to_bytes().to_vec();
    assert_eq!(wt.watchtower_pubkey_bytes(), expected);
}
