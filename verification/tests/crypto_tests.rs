//! Signature primitive: round trips, bit-flip rejection, key validation.

use roster_attest::crypto::{sha256, sign_struct, verify_struct, verifying_key_from_bytes, CryptoError};
use roster_attest::types::{Endpoint, RegistrationMessage};

fn seed(n: u8) -> Vec<u8> {
    vec![n; 32]
}

fn sample_message() -> RegistrationMessage {
    RegistrationMessage {
        epoch: 1,
        party_id: 7,
        endpoint: Endpoint { addr: b"10.0.0.7:9000".to_vec() },
        pk_party: vec![0u8; 32],
        seq: 1,
        nonce: vec![9u8; 16],
    }
}

/// The public key bytes for a seed, via the ed25519_dalek crate itself.
fn pk_of(sk_seed: &[u8]) -> Vec<u8> {
    let mut s = [0u8; 32];
    s.copy_from_slice(sk_seed);
    ed25519_dalek::SigningKey::from_bytes(&s).verifying_key().to_bytes().to_vec()
}

#[test]
fn sha256_empty_is_the_known_digest() {
    let d = sha256(&[]);
    let expected = [
        0xe3u8, 0xb0, 0xc4, 0x42, 0x98, 0xfc, 0x1c, 0x14, 0x9a, 0xfb, 0xf4, 0xc8, 0x99, 0x6f,
        0xb9, 0x24, 0x27, 0xae, 0x41, 0xe4, 0x64, 0x9b, 0x93, 0x4c, 0xa4, 0x95, 0x99, 0x1b,
        0x78, 0x52, 0xb8, 0x55,
    ];
    assert_eq!(d, expected.to_vec());
}

#[test]
fn sign_then_verify_succeeds() {
    let sk = seed(42);
    let pk = pk_of(&sk);
    let msg = sample_message();
    let sig = sign_struct(&sk, &msg);
    assert_eq!(sig.len(), 64);
    assert!(verify_struct(&pk, &msg, &sig).is_ok());
}

#[test]
fn signing_is_deterministic_and_binds_the_digest() {
    let sk = seed(42);
    let msg = sample_message();
    // Two signings of the same message give the same bytes.
    assert_eq!(sign_struct(&sk, &msg), sign_struct(&sk, &msg));
    // And they are exactly the Ed25519 signature over sha256(enc(msg)).
    let digest = sha256(&roster_attest::codec::enc(&msg));
    let mut s = [0u8; 32];
    s.copy_from_slice(&sk);
    let key = ed25519_dalek::SigningKey::from_bytes(&s);
    let expected = ed25519_dalek::Signer::sign(&key, &digest).to_bytes().to_vec();
    assert_eq!(sign_struct(&sk, &msg), expected);
}

#[test]
fn flipping_message_or_signature_is_rejected() {
    let sk = seed(42);
    let pk = pk_of(&sk);
    let msg = sample_message();
    let sig = sign_struct(&sk, &msg);

    let mut tampered_msg = msg.clone();
    tampered_msg.endpoint.addr[0] ^= 1;
    assert_eq!(verify_struct(&pk, &tampered_msg, &sig), Err(CryptoError::BadSignature));

    let mut tampered_sig = sig.clone();
    tampered_sig[0] ^= 1;
    assert_eq!(verify_struct(&pk, &msg, &tampered_sig), Err(CryptoError::BadSignature));

    let other_pk = pk_of(&seed(43));
    assert_eq!(verify_struct(&other_pk, &msg, &sig), Err(CryptoError::BadSignature));
}

#[test]
fn verifying_key_from_bytes_agrees_with_point_decoding() {
    // A key derived from a seed is valid.
    let pk = pk_of(&seed(1));
    let r = verifying_key_from_bytes(&pk);
    assert_eq!(r, Ok(pk.clone()));

    // Wrong length is rejected.
    assert_eq!(verifying_key_from_bytes(&vec![0u8; 31]), Err(CryptoError::BadKey));

    // Find bytes that ed25519_dalek itself refuses to decode, and check the
    // library agrees; also check agreement on ones it accepts.
    let mut saw_invalid = false;
    for n in 0..=255u8 {
        let cand = vec![n; 32];
        let mut c = [0u8; 32];
        c.copy_from_slice(&cand);
        let dalek_ok = ed25519_dalek::VerifyingKey::from_bytes(&c).is_ok();
        let lib_ok = verifying_key_from_bytes(&cand).is_ok();
        assert_eq!(dalek_ok, lib_ok);
        if !dalek_ok {
            saw_invalid = true;
        }
    }
    assert!(saw_invalid);
}
