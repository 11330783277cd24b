//! Canonical encoding: determinism, the pinned byte layout, injectivity on
//! concrete values.

use roster_attest::codec::enc;
use roster_attest::types::{Endpoint, PartyRegistrationRecord, RegistrationMessage, SnapshotMessage};

fn sample_message() -> RegistrationMessage {
    RegistrationMessage {
        epoch: 1,
        party_id: 2,
        endpoint: Endpoint { addr: b"ab".to_vec() },
        pk_party: vec![3u8; 32],
        seq: 4,
        nonce: vec![5u8; 16],
    }
}

#[test]
fn enc_registration_is_deterministic() {
    let m1 = sample_message();
    let m2 = sample_message();
    assert_eq!(enc(&m1), enc(&m2));
    assert_eq!(enc(&m1), enc(&m1));
}

#[test]
fn enc_registration_pinned_layout() {
    let m = sample_message();
    let mut expected: Vec<u8> = Vec::new();
    expected.extend_from_slice(&1u64.to_le_bytes());
    expected.extend_from_slice(&2u64.to_le_bytes());
    expected.extend_from_slice(&2u64.to_le_bytes()); // endpoint length prefix
    expected.extend_from_slice(b"ab");
    expected.extend_from_slice(&[3u8; 32]);
    expected.extend_from_slice(&4u64.to_le_bytes());
    expected.extend_from_slice(&[5u8; 16]);
    assert_eq!(enc(&m), expected);
}

#[test]
fn enc_snapshot_pinned_layout() {
    let m = SnapshotMessage { epoch: 7, log_len: 9, merkle_root: vec![0xABu8; 32] };
    let mut expected: Vec<u8> = Vec::new();
    expected.extend_from_slice(&7u64.to_le_bytes());
    expected.extend_from_slice(&9u64.to_le_bytes());
    expected.extend_from_slice(&[0xABu8; 32]);
    assert_eq!(enc(&m), expected);
}

#[test]
fn enc_differs_when_any_field_differs() {
    let base = sample_message();
    let mut other = sample_message();
    other.epoch = 99;
    assert_ne!(enc(&base), enc(&other));

    let mut other = sample_message();
    other.party_id = 99;
    assert_ne!(enc(&base), enc(&other));

    let mut other = sample_message();
    other.endpoint = Endpoint { addr: b"ba".to_vec() };
    assert_ne!(enc(&base), enc(&other));

    let mut other = sample_message();
    other.pk_party[31] ^= 1;
    assert_ne!(enc(&base), enc(&other));

    let mut other = sample_message();
    other.seq = 99;
    assert_ne!(enc(&base), enc(&other));

    let mut other = sample_message();
    other.nonce[0] ^= 1;
    assert_ne!(enc(&base), enc(&other));
}

#[test]
fn enc_record_appends_signature() {
    let m = sample_message();
    let sig = vec![6u8; 64];
    let prr = PartyRegistrationRecord { msg: m.clone(), sig_party: sig.clone() };
    let mut expected = enc(&m);
    expected.extend_from_slice(&sig);
    assert_eq!(enc(&prr), expected);
}
