//! Signature primitive: Ed25519 over `sha256(enc(msg))`, plus the hashing
//! and base64 helpers the protocol needs.
//!
//! The outside calls stand behind trusted wrappers whose contracts name
//! their results; everything built on top of them is verified.

use base64::Engine;
use ed25519_dalek::Signer;
use sha2::Digest;
use vstd::prelude::*;

use crate::codec::{enc, Encodable};

verus! {

/// The SHA-256 digest of a byte sequence.
pub uninterp spec fn sha256_of(data: Seq<u8>) -> Seq<u8>;

/// The 32-byte Ed25519 public key derived from a 32-byte signing seed.
pub uninterp spec fn ed25519_pk_of(seed: Seq<u8>) -> Seq<u8>;

/// Whether 32 bytes are a valid Ed25519 public-key encoding (the compressed
/// point decompresses).
pub uninterp spec fn ed25519_pk_valid(pk: Seq<u8>) -> bool;

/// The 64-byte deterministic Ed25519 signature by the seed's key over a
/// message.
pub uninterp spec fn ed25519_sign_bytes(seed: Seq<u8>, m: Seq<u8>) -> Seq<u8>;

/// Whether strict Ed25519 verification of `sig` over `m` under `pk` passes.
pub uninterp spec fn ed25519_verifies(pk: Seq<u8>, m: Seq<u8>, sig: Seq<u8>) -> bool;

/// Relies on sha2's `Sha256` (via the `Digest` trait): the digest is 32
/// bytes and depends on the input bytes alone.
#[verifier::external_body]
pub fn sha256(data: &[u8]) -> (r: Vec<u8>)
    ensures
        r@ == sha256_of(data@),
        r@.len() == 32,
{
    let mut hasher = sha2::Sha256::new();
    hasher.update(data);
    hasher.finalize().to_vec()
}

/// Relies on ed25519_dalek's `SigningKey::verifying_key`: the public key is
/// derived from the seed alone, is 32 bytes, and is a valid point encoding
/// (its bytes round-trip through `VerifyingKey::from_bytes`).
#[verifier::external_body]
pub(crate) fn derive_verifying_key(seed: &Vec<u8>) -> (r: Vec<u8>)
    requires
        seed@.len() == 32,
    ensures
        r@ == ed25519_pk_of(seed@),
        r@.len() == 32,
        ed25519_pk_valid(r@),
{
    let mut seed32 = [0u8; 32];
    seed32.copy_from_slice(seed.as_slice());
    let sk = ed25519_dalek::SigningKey::from_bytes(&seed32);
    sk.verifying_key().to_bytes().to_vec()
}

/// Relies on ed25519_dalek's `Signer::sign` (RFC 8032): the signature is a
/// deterministic 64-byte function of the seed and the message, and passes
/// `verify_strict` under the seed's own public key.
#[verifier::external_body]
pub(crate) fn sign_digest(seed: &Vec<u8>, m: &Vec<u8>) -> (r: Vec<u8>)
    requires
        seed@.len() == 32,
    ensures
        r@ == ed25519_sign_bytes(seed@, m@),
        r@.len() == 64,
        ed25519_verifies(ed25519_pk_of(seed@), m@, r@),
{
    let mut seed32 = [0u8; 32];
    seed32.copy_from_slice(seed.as_slice());
    let sk = ed25519_dalek::SigningKey::from_bytes(&seed32);
    sk.sign(m.as_slice()).to_bytes().to_vec()
}

/// Relies on ed25519_dalek's `VerifyingKey::from_bytes`: whether 32 bytes
/// decode to a public key depends on the bytes alone.
#[verifier::external_body]
pub(crate) fn pk_decodes(pk: &Vec<u8>) -> (r: bool)
    requires
        pk@.len() == 32,
    ensures
        r == ed25519_pk_valid(pk@),
{
    let mut pk32 = [0u8; 32];
    pk32.copy_from_slice(pk.as_slice());
    ed25519_dalek::VerifyingKey::from_bytes(&pk32).is_ok()
}

/// Relies on ed25519_dalek's `VerifyingKey::verify_strict`: acceptance
/// depends on the public key, message, and signature bytes alone.
#[verifier::external_body]
pub(crate) fn verify_digest(pk: &Vec<u8>, m: &Vec<u8>, sig: &Vec<u8>) -> (r: bool)
    requires
        pk@.len() == 32,
        sig@.len() == 64,
        ed25519_pk_valid(pk@),
    ensures
        r == ed25519_verifies(pk@, m@, sig@),
{
    let mut pk32 = [0u8; 32];
    pk32.copy_from_slice(pk.as_slice());
    let key = match ed25519_dalek::VerifyingKey::from_bytes(&pk32) {
        Ok(k) => k,
        Err(_) => return false,
    };
    let mut sig64 = [0u8; 64];
    sig64.copy_from_slice(sig.as_slice());
    let sig = ed25519_dalek::Signature::from_bytes(&sig64);
    key.verify_strict(m.as_slice(), &sig).is_ok()
}

/// The base64 text (standard alphabet, padded) of a byte sequence.
pub uninterp spec fn base64_of(b: Seq<u8>) -> Seq<char>;

/// Relies on base64's `Engine::encode` with the `STANDARD` engine: the text
/// depends on the input bytes alone.
#[verifier::external_body]
pub(crate) fn base64_encode(b: &Vec<u8>) -> (r: String)
    ensures
        r@ == base64_of(b@),
{
    base64::engine::general_purpose::STANDARD.encode(b.as_slice())
}

/// Failure modes of the signature primitive.
#[derive(Debug, Clone, Copy, PartialEq, Eq)]
pub enum CryptoError {
    /// The public key bytes do not decode to a valid key.
    BadKey,
    /// Strict verification rejected the signature.
    BadSignature,
}

/// Signs a message: `Sign(sk, sha256(enc(msg)))`. The signature verifies
/// under the seed's own public key.
pub fn sign_struct<T: Encodable>(sk_seed: &Vec<u8>, msg: &T) -> (r: Vec<u8>)
    requires
        sk_seed@.len() == 32,
    ensures
        r@ == ed25519_sign_bytes(sk_seed@, sha256_of(msg.enc_spec())),
        r@.len() == 64,
        ed25519_verifies(ed25519_pk_of(sk_seed@), sha256_of(msg.enc_spec()), r@),
{
    let bytes = enc(msg);
    let h = sha256(bytes.as_slice());
    sign_digest(sk_seed, &h)
}

/// Verifies a signature over `sha256(enc(msg))`. Returns `Ok` exactly when
/// the key decodes and strict verification passes; `BadKey` exactly when the
/// key does not decode; `BadSignature` exactly otherwise.
pub fn verify_struct<T: Encodable>(pk: &Vec<u8>, msg: &T, sig: &Vec<u8>) -> (r: Result<
    (),
    CryptoError,
>)
    requires
        pk@.len() == 32,
        sig@.len() == 64,
    ensures
        r is Ok <==> ed25519_pk_valid(pk@) && ed25519_verifies(
            pk@,
            sha256_of(msg.enc_spec()),
            sig@,
        ),
        r == Err::<(), CryptoError>(CryptoError::BadKey) <==> !ed25519_pk_valid(pk@),
        r == Err::<(), CryptoError>(CryptoError::BadSignature) <==> (ed25519_pk_valid(pk@)
            && !ed25519_verifies(pk@, sha256_of(msg.enc_spec()), sig@)),
{
    if !pk_decodes(pk) {
        return Err(CryptoError::BadKey);
    }
    let bytes = enc(msg);
    let h = sha256(bytes.as_slice());
    if verify_digest(pk, &h, sig) {
        Ok(())
    } else {
        Err(CryptoError::BadSignature)
    }
}

/// Validates a public key's point encoding, returning the key bytes exactly
/// when they are 32 bytes that decode to a valid Ed25519 public key.
pub fn verifying_key_from_bytes(pk: &Vec<u8>) -> (r: Result<Vec<u8>, CryptoError>)
    ensures
        r is Ok <==> pk@.len() == 32 && ed25519_pk_valid(pk@),
        r matches Ok(v) ==> v@ == pk@,
        r is Err ==> r == Err::<Vec<u8>, CryptoError>(CryptoError::BadKey),
{
    if pk.len() != 32 {
        return Err(CryptoError::BadKey);
    }
    if !pk_decodes(pk) {
        return Err(CryptoError::BadKey);
    }
    Ok(crate::codec::clone_bytes(pk))
}

} // verus!
