//! Canonical encoding of the protocol messages.
//!
//! The encoding is part of the wire contract: signatures and leaf hashes bind
//! to these exact bytes. Scalars are 8-byte little-endian; variable-length
//! byte fields carry an 8-byte little-endian length prefix; fixed-width byte
//! fields (keys, nonces, signatures, roots) are written raw. The encoding is
//! total, deterministic, and injective on well-formed messages.

use vstd::bytes::{lemma_auto_spec_u64_to_from_le_bytes, spec_u64_to_le_bytes, u64_to_le_bytes};
use vstd::prelude::*;

use crate::types::{
    PartyRegistrationRecord, PartyRegistrationRecordView, RegistrationMessage,
    RegistrationMessageView, SnapshotMessage, SnapshotMessageView,
};

verus! {

/// Length-prefixed bytes: an 8-byte little-endian length, then the bytes.
pub open spec fn enc_bytes(b: Seq<u8>) -> Seq<u8> {
    spec_u64_to_le_bytes(b.len() as u64) + b
}

/// Canonical bytes of a registration message: epoch, party id, endpoint
/// (length-prefixed), public key (32 raw bytes), sequence number, nonce
/// (16 raw bytes), in that order.
pub open spec fn enc_registration(m: RegistrationMessageView) -> Seq<u8> {
    spec_u64_to_le_bytes(m.epoch) + spec_u64_to_le_bytes(m.party_id) + enc_bytes(m.endpoint)
        + m.pk_party + spec_u64_to_le_bytes(m.seq) + m.nonce
}

/// Canonical bytes of a registration record: the message, then the party
/// signature (64 raw bytes).
pub open spec fn enc_record(p: PartyRegistrationRecordView) -> Seq<u8> {
    enc_registration(p.msg) + p.sig_party
}

/// Canonical bytes of a snapshot message: epoch, log length, Merkle root
/// (32 raw bytes), in that order.
pub open spec fn enc_snapshot(m: SnapshotMessageView) -> Seq<u8> {
    spec_u64_to_le_bytes(m.epoch) + spec_u64_to_le_bytes(m.log_len) + m.merkle_root
}

/// A message type with a canonical, deterministic binary encoding.
pub trait Encodable {
    /// The canonical bytes of this message.
    spec fn enc_spec(&self) -> Seq<u8>;

    /// Produces exactly the canonical bytes.
    fn encode(&self) -> (r: Vec<u8>)
        ensures
            r@ == self.enc_spec(),
    ;
}

/// Appends all bytes of `src` to `out`.
fn push_bytes(out: &mut Vec<u8>, src: &[u8])
    ensures
        final(out)@ == old(out)@ + src@,
{
    let mut i: usize = 0;
    while i < src.len()
        invariant
            i <= src@.len(),
            out@ == old(out)@ + src@.subrange(0, i as int),
        decreases src@.len() - i,
    {
        out.push(src[i]);
        proof {
            assert(out@ =~= old(out)@ + src@.subrange(0, i + 1));
        }
        i += 1;
    }
    proof {
        assert(src@.subrange(0, src@.len() as int) =~= src@);
    }
}

/// Copies a byte vector.
pub fn clone_bytes(v: &Vec<u8>) -> (r: Vec<u8>)
    ensures
        r@ == v@,
{
    let mut out: Vec<u8> = Vec::new();
    push_bytes(&mut out, v.as_slice());
    proof {
        assert(out@ =~= v@);
    }
    out
}

/// Compares two byte vectors for equality of their contents.
pub fn bytes_eq(a: &Vec<u8>, b: &Vec<u8>) -> (r: bool)
    ensures
        r == (a@ == b@),
{
    if a.len() != b.len() {
        return false;
    }
    let mut i: usize = 0;
    while i < a.len()
        invariant
            a@.len() == b@.len(),
            i <= a@.len(),
            forall|j: int| 0 <= j < i ==> a@[j] == b@[j],
        decreases a@.len() - i,
    {
        if a[i] != b[i] {
            return false;
        }
        i += 1;
    }
    proof {
        assert(a@ =~= b@);
    }
    true
}

/// Appends the 8-byte little-endian form of `x` to `out`.
fn push_u64_le(out: &mut Vec<u8>, x: u64)
    ensures
        final(out)@ == old(out)@ + spec_u64_to_le_bytes(x),
{
    let bs = u64_to_le_bytes(x);
    push_bytes(out, bs.as_slice());
}

impl Encodable for RegistrationMessage {
    open spec fn enc_spec(&self) -> Seq<u8> {
        enc_registration(self@)
    }

    fn encode(&self) -> (r: Vec<u8>) {
        let mut out: Vec<u8> = Vec::new();
        push_u64_le(&mut out, self.epoch);
        push_u64_le(&mut out, self.party_id);
        push_u64_le(&mut out, self.endpoint.addr.len() as u64);
        push_bytes(&mut out, self.endpoint.addr.as_slice());
        push_bytes(&mut out, self.pk_party.as_slice());
        push_u64_le(&mut out, self.seq);
        push_bytes(&mut out, self.nonce.as_slice());
        proof {
            assert(out@ =~= enc_registration(self@));
        }
        out
    }
}

impl Encodable for PartyRegistrationRecord {
    open spec fn enc_spec(&self) -> Seq<u8> {
        enc_record(self@)
    }

    fn encode(&self) -> (r: Vec<u8>) {
        let mut out = self.msg.encode();
        push_bytes(&mut out, self.sig_party.as_slice());
        out
    }
}

impl Encodable for SnapshotMessage {
    open spec fn enc_spec(&self) -> Seq<u8> {
        enc_snapshot(self@)
    }

    fn encode(&self) -> (r: Vec<u8>) {
        let mut out: Vec<u8> = Vec::new();
        push_u64_le(&mut out, self.epoch);
        push_u64_le(&mut out, self.log_len);
        push_bytes(&mut out, self.merkle_root.as_slice());
        proof {
            assert(out@ =~= enc_snapshot(self@));
        }
        out
    }
}

/// Canonical encoding of a message. Total and deterministic: the bytes are a
/// function of the message value alone.
pub fn enc<T: Encodable>(value: &T) -> (r: Vec<u8>)
    ensures
        r@ == value.enc_spec(),
{
    value.encode()
}

/// Splitting a concatenation at a known boundary recovers both parts.
proof fn lemma_concat_parts(a1: Seq<u8>, b1: Seq<u8>, a2: Seq<u8>, b2: Seq<u8>)
    requires
        a1 + b1 == a2 + b2,
        a1.len() == a2.len(),
    ensures
        a1 == a2,
        b1 == b2,
{
    let n = a1.len() as int;
    assert(a1 =~= (a1 + b1).subrange(0, n));
    assert(a2 =~= (a2 + b2).subrange(0, n));
    assert(b1 =~= (a1 + b1).subrange(n, (a1 + b1).len() as int));
    assert(b2 =~= (a2 + b2).subrange(n, (a2 + b2).len() as int));
}

/// Equal little-endian bytes come only from equal scalars.
proof fn lemma_u64_le_injective(x: u64, y: u64)
    requires
        spec_u64_to_le_bytes(x) == spec_u64_to_le_bytes(y),
    ensures
        x == y,
{
    lemma_auto_spec_u64_to_from_le_bytes();
}

/// The encodings of two well-formed registration messages are equal exactly
/// when the messages are equal: `enc` is injective on registration messages.
pub proof fn lemma_enc_registration_injective(
    m1: RegistrationMessageView,
    m2: RegistrationMessageView,
)
    requires
        m1.wf(),
        m2.wf(),
    ensures
        enc_registration(m1) == enc_registration(m2) <==> m1 == m2,
{
    lemma_auto_spec_u64_to_from_le_bytes();
    if enc_registration(m1) == enc_registration(m2) {
        let tail1 = spec_u64_to_le_bytes(m1.party_id) + enc_bytes(m1.endpoint) + m1.pk_party
            + spec_u64_to_le_bytes(m1.seq) + m1.nonce;
        let tail2 = spec_u64_to_le_bytes(m2.party_id) + enc_bytes(m2.endpoint) + m2.pk_party
            + spec_u64_to_le_bytes(m2.seq) + m2.nonce;
        assert(enc_registration(m1) =~= spec_u64_to_le_bytes(m1.epoch) + tail1);
        assert(enc_registration(m2) =~= spec_u64_to_le_bytes(m2.epoch) + tail2);
        lemma_concat_parts(
            spec_u64_to_le_bytes(m1.epoch),
            tail1,
            spec_u64_to_le_bytes(m2.epoch),
            tail2,
        );
        lemma_u64_le_injective(m1.epoch, m2.epoch);

        let tail1b = enc_bytes(m1.endpoint) + m1.pk_party + spec_u64_to_le_bytes(m1.seq)
            + m1.nonce;
        let tail2b = enc_bytes(m2.endpoint) + m2.pk_party + spec_u64_to_le_bytes(m2.seq)
            + m2.nonce;
        assert(tail1 =~= spec_u64_to_le_bytes(m1.party_id) + tail1b);
        assert(tail2 =~= spec_u64_to_le_bytes(m2.party_id) + tail2b);
        lemma_concat_parts(
            spec_u64_to_le_bytes(m1.party_id),
            tail1b,
            spec_u64_to_le_bytes(m2.party_id),
            tail2b,
        );
        lemma_u64_le_injective(m1.party_id, m2.party_id);

        let tail1c = m1.endpoint + m1.pk_party + spec_u64_to_le_bytes(m1.seq) + m1.nonce;
        let tail2c = m2.endpoint + m2.pk_party + spec_u64_to_le_bytes(m2.seq) + m2.nonce;
        assert(tail1b =~= spec_u64_to_le_bytes(m1.endpoint.len() as u64) + tail1c);
        assert(tail2b =~= spec_u64_to_le_bytes(m2.endpoint.len() as u64) + tail2c);
        lemma_concat_parts(
            spec_u64_to_le_bytes(m1.endpoint.len() as u64),
            tail1c,
            spec_u64_to_le_bytes(m2.endpoint.len() as u64),
            tail2c,
        );
        lemma_u64_le_injective(m1.endpoint.len() as u64, m2.endpoint.len() as u64);
        assert(m1.endpoint.len() == m2.endpoint.len());

        let tail1d = m1.pk_party + spec_u64_to_le_bytes(m1.seq) + m1.nonce;
        let tail2d = m2.pk_party + spec_u64_to_le_bytes(m2.seq) + m2.nonce;
        assert(tail1c =~= m1.endpoint + tail1d);
        assert(tail2c =~= m2.endpoint + tail2d);
        lemma_concat_parts(m1.endpoint, tail1d, m2.endpoint, tail2d);

        let tail1e = spec_u64_to_le_bytes(m1.seq) + m1.nonce;
        let tail2e = spec_u64_to_le_bytes(m2.seq) + m2.nonce;
        assert(tail1d =~= m1.pk_party + tail1e);
        assert(tail2d =~= m2.pk_party + tail2e);
        lemma_concat_parts(m1.pk_party, tail1e, m2.pk_party, tail2e);
        lemma_concat_parts(spec_u64_to_le_bytes(m1.seq), m1.nonce, spec_u64_to_le_bytes(m2.seq), m2.nonce);
        lemma_u64_le_injective(m1.seq, m2.seq);

        assert(m1 =~= m2);
    }
}

/// The encodings of two well-formed registration records are equal exactly
/// when the records are equal: `enc` is injective on registration records.
pub proof fn lemma_enc_record_injective(
    p1: PartyRegistrationRecordView,
    p2: PartyRegistrationRecordView,
)
    requires
        p1.wf(),
        p2.wf(),
    ensures
        enc_record(p1) == enc_record(p2) <==> p1 == p2,
{
    if enc_record(p1) == enc_record(p2) {
        assert(enc_record(p1).len() == enc_registration(p1.msg).len() + p1.sig_party.len());
        assert(enc_record(p2).len() == enc_registration(p2.msg).len() + p2.sig_party.len());
        lemma_concat_parts(enc_registration(p1.msg), p1.sig_party, enc_registration(p2.msg), p2.sig_party);
        lemma_enc_registration_injective(p1.msg, p2.msg);
        assert(p1 =~= p2);
    }
}

/// The encodings of two well-formed snapshot messages are equal exactly when
/// the messages are equal: `enc` is injective on snapshot messages.
pub proof fn lemma_enc_snapshot_injective(m1: SnapshotMessageView, m2: SnapshotMessageView)
    requires
        m1.wf(),
        m2.wf(),
    ensures
        enc_snapshot(m1) == enc_snapshot(m2) <==> m1 == m2,
{
    lemma_auto_spec_u64_to_from_le_bytes();
    if enc_snapshot(m1) == enc_snapshot(m2) {
        let tail1 = spec_u64_to_le_bytes(m1.log_len) + m1.merkle_root;
        let tail2 = spec_u64_to_le_bytes(m2.log_len) + m2.merkle_root;
        assert(enc_snapshot(m1) =~= spec_u64_to_le_bytes(m1.epoch) + tail1);
        assert(enc_snapshot(m2) =~= spec_u64_to_le_bytes(m2.epoch) + tail2);
        lemma_concat_parts(spec_u64_to_le_bytes(m1.epoch), tail1, spec_u64_to_le_bytes(m2.epoch), tail2);
        lemma_u64_le_injective(m1.epoch, m2.epoch);
        lemma_concat_parts(
            spec_u64_to_le_bytes(m1.log_len),
            m1.merkle_root,
            spec_u64_to_le_bytes(m2.log_len),
            m2.merkle_root,
        );
        lemma_u64_le_injective(m1.log_len, m2.log_len);
        assert(m1 =~= m2);
    }
}

} // verus!
