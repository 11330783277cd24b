//! The watchtower: a single-writer, epoch-scoped, append-only log of signed
//! registration records, with signed Merkle snapshots.
//!
//! Validation failures never mutate state; a successful `register` appends
//! exactly one record and updates the per-party sequence floor atomically.

use std::collections::HashMap;
use vstd::prelude::*;

use crate::codec::{clone_bytes, enc, enc_record, enc_registration, enc_snapshot};
use crate::crypto::{
    derive_verifying_key, ed25519_pk_of, ed25519_pk_valid, ed25519_sign_bytes, ed25519_verifies,
    sha256_of, sign_struct, verify_struct, CryptoError,
};
use crate::merkle::{hash_views, leaf_hash, leaves_of, merkle_root, merkle_root_spec};
use crate::types::{
    clone_record, prr_views, PartyRegistrationRecord, PartyRegistrationRecordView,
    SignedRosterSnapshot, SnapshotMessage, SnapshotMessageView,
};

verus! {

broadcast use vstd::std_specs::hash::group_hash_axioms;

/// Failure modes of the watchtower's operations.
#[derive(Debug, Clone, Copy, PartialEq, Eq)]
pub enum WatchtowerError {
    /// The record's epoch is not the watchtower's epoch.
    EpochMismatch,
    /// The record's public key bytes do not decode.
    BadKey,
    /// The party signature fails strict verification.
    BadSignature,
    /// The record's sequence number does not exceed the last accepted one
    /// for its party.
    NonMonotonicSeq,
    /// An entries range is not `1 <= from <= to <= log_len`.
    BadRange,
}

impl WatchtowerError {
    /// A short description for reporting at the API edge.
    pub fn describe(&self) -> &'static str {
        match self {
            WatchtowerError::EpochMismatch => "epoch mismatch",
            WatchtowerError::BadKey => "invalid party public key",
            WatchtowerError::BadSignature => "signature verification failed",
            WatchtowerError::NonMonotonicSeq => "seq must increase for this party_id",
            WatchtowerError::BadRange => "invalid range: must be 1-indexed, from<=to<=log_len",
        }
    }
}

/// Watchtower state: the epoch, the append-only log (1-indexed at the API),
/// the last accepted sequence number per party, and the signing keypair.
pub struct WatchtowerState {
    pub epoch: u64,
    pub log: Vec<PartyRegistrationRecord>,
    pub last_seq: HashMap<u64, u64>,
    /// 32-byte Ed25519 signing seed.
    pub sk_w: Vec<u8>,
    /// 32-byte public key derived from `sk_w`.
    pub pk_w: Vec<u8>,
}

impl WatchtowerState {
    /// The views of the log entries, in order.
    pub open spec fn log_view(self) -> Seq<PartyRegistrationRecordView> {
        prr_views(self.log@)
    }

    /// A record this watchtower accepts: well-formed, of this epoch, with a
    /// valid party key and a party signature that strictly verifies.
    pub open spec fn accepted_record(self, p: PartyRegistrationRecordView) -> bool {
        &&& p.wf()
        &&& p.msg.epoch == self.epoch
        &&& ed25519_pk_valid(p.msg.pk_party)
        &&& ed25519_verifies(p.msg.pk_party, sha256_of(enc_registration(p.msg)), p.sig_party)
    }

    /// Well-formedness: the keypair is consistent; every log entry was
    /// accepted; per party, sequence numbers strictly increase in log order;
    /// and `last_seq` maps each seen party to its greatest accepted seq.
    pub open spec fn wf(self) -> bool {
        &&& self.sk_w@.len() == 32
        &&& self.pk_w@.len() == 32
        &&& self.pk_w@ == ed25519_pk_of(self.sk_w@)
        &&& ed25519_pk_valid(self.pk_w@)
        &&& forall|i: int|
            0 <= i < self.log_view().len() ==> self.accepted_record(#[trigger] self.log_view()[i])
        &&& forall|i: int|
            0 <= i < self.log_view().len() ==> {
                let p = #[trigger] self.log_view()[i];
                &&& self.last_seq@.contains_key(p.msg.party_id)
                &&& p.msg.seq <= self.last_seq@[p.msg.party_id]
            }
        &&& forall|i: int, j: int|
            #![trigger self.log_view()[i], self.log_view()[j]]
            0 <= i < j < self.log_view().len() && self.log_view()[i].msg.party_id
                == self.log_view()[j].msg.party_id ==> self.log_view()[i].msg.seq
                < self.log_view()[j].msg.seq
        &&& forall|pid: u64|
            #[trigger] self.last_seq@.contains_key(pid) ==> exists|i: int|
                0 <= i < self.log_view().len() && (#[trigger] self.log_view()[i]).msg.party_id
                    == pid && self.log_view()[i].msg.seq == self.last_seq@[pid]
    }

    /// The snapshot message the current state commits to: the epoch, the log
    /// length, and the Merkle root of the log's leaf hashes.
    pub open spec fn snapshot_msg_spec(self) -> SnapshotMessageView {
        SnapshotMessageView {
            epoch: self.epoch,
            log_len: self.log@.len() as u64,
            merkle_root: merkle_root_spec(leaves_of(self.log_view())),
        }
    }

    /// Creates a watchtower for an epoch from a 32-byte signing seed, with
    /// an empty log.
    pub fn new(epoch: u64, sk_seed: Vec<u8>) -> (r: WatchtowerState)
        requires
            sk_seed@.len() == 32,
        ensures
            r.wf(),
            r.epoch == epoch,
            r.log@ == Seq::<PartyRegistrationRecord>::empty(),
            r.last_seq@ == Map::<u64, u64>::empty(),
            r.sk_w@ == sk_seed@,
            r.pk_w@ == ed25519_pk_of(sk_seed@),
    {
        let pk_w = derive_verifying_key(&sk_seed);
        WatchtowerState { epoch, log: Vec::new(), last_seq: HashMap::new(), sk_w: sk_seed, pk_w }
    }

    /// Returns the watchtower public key bytes (TOFU bootstrap for parties).
    pub fn watchtower_pubkey_bytes(&self) -> (r: Vec<u8>)
        ensures
            r@ == self.pk_w@,
    {
        clone_bytes(&self.pk_w)
    }

    /// Validates and appends a registration record, returning a fresh signed
    /// snapshot on success. Rejections never mutate state: `EpochMismatch`
    /// exactly when the record's epoch differs; `BadKey` exactly when its
    /// key does not decode; `BadSignature` exactly when strict verification
    /// fails; `NonMonotonicSeq` exactly when the party was seen before with
    /// an equal or greater seq. On success the log grows by exactly this
    /// record and the party's floor becomes its seq.
    pub fn register(&mut self, prr: PartyRegistrationRecord) -> (r: Result<
        SignedRosterSnapshot,
        WatchtowerError,
    >)
        requires
            old(self).wf(),
            prr@.wf(),
        ensures
            final(self).wf(),
            final(self).epoch == old(self).epoch,
            final(self).sk_w == old(self).sk_w,
            final(self).pk_w == old(self).pk_w,
            r is Err ==> *final(self) == *old(self),
            r == Err::<SignedRosterSnapshot, WatchtowerError>(WatchtowerError::EpochMismatch)
                <==> prr@.msg.epoch != old(self).epoch,
            r == Err::<SignedRosterSnapshot, WatchtowerError>(WatchtowerError::BadKey) <==> (
            prr@.msg.epoch == old(self).epoch && !ed25519_pk_valid(prr@.msg.pk_party)),
            r == Err::<SignedRosterSnapshot, WatchtowerError>(WatchtowerError::BadSignature) <==> (
            prr@.msg.epoch == old(self).epoch && ed25519_pk_valid(prr@.msg.pk_party)
                && !ed25519_verifies(
                prr@.msg.pk_party,
                sha256_of(enc_registration(prr@.msg)),
                prr@.sig_party,
            )),
            r == Err::<SignedRosterSnapshot, WatchtowerError>(WatchtowerError::NonMonotonicSeq)
                <==> (old(self).accepted_record(prr@) && old(self).last_seq@.contains_key(
                prr@.msg.party_id,
            ) && prr@.msg.seq <= old(self).last_seq@[prr@.msg.party_id]),
            r is Ok <==> (old(self).accepted_record(prr@) && (old(self).last_seq@.contains_key(
                prr@.msg.party_id,
            ) ==> prr@.msg.seq > old(self).last_seq@[prr@.msg.party_id])),
            r is Ok ==> {
                &&& final(self).log@ == old(self).log@.push(prr)
                &&& final(self).log@.len() == old(self).log@.len() + 1
                &&& final(self).last_seq@ == old(self).last_seq@.insert(
                    prr@.msg.party_id,
                    prr@.msg.seq,
                )
            },
            r matches Ok(srs) ==> {
                &&& srs@.msg == final(self).snapshot_msg_spec()
                &&& srs@.wf()
                &&& srs@.sig_watchtower == ed25519_sign_bytes(
                    final(self).sk_w@,
                    sha256_of(enc_snapshot(srs@.msg)),
                )
                &&& ed25519_verifies(
                    final(self).pk_w@,
                    sha256_of(enc_snapshot(srs@.msg)),
                    srs@.sig_watchtower,
                )
            },
    {
        if prr.msg.epoch != self.epoch {
            return Err(WatchtowerError::EpochMismatch);
        }
        match verify_struct(&prr.msg.pk_party, &prr.msg, &prr.sig_party) {
            Ok(()) => {},
            Err(CryptoError::BadKey) => {
                return Err(WatchtowerError::BadKey);
            },
            Err(CryptoError::BadSignature) => {
                return Err(WatchtowerError::BadSignature);
            },
        }
        let pid = prr.msg.party_id;
        let s = prr.msg.seq;
        match self.last_seq.get(&pid) {
            Some(last) => {
                if s <= *last {
                    return Err(WatchtowerError::NonMonotonicSeq);
                }
            },
            None => {},
        }
        let ghost pre = *self;
        self.last_seq.insert(pid, s);
        self.log.push(prr);
        proof {
            assert(self.log_view() =~= pre.log_view().push(prr@));
            lemma_register_preserves_wf(pre, *self, prr@);
        }
        let srs = self.snapshot();
        Ok(srs)
    }

    /// Issues a signed snapshot committing to the current log.
    pub fn snapshot(&self) -> (r: SignedRosterSnapshot)
        requires
            self.wf(),
        ensures
            r@.msg == self.snapshot_msg_spec(),
            r@.wf(),
            r@.sig_watchtower == ed25519_sign_bytes(self.sk_w@, sha256_of(enc_snapshot(r@.msg))),
            ed25519_verifies(self.pk_w@, sha256_of(enc_snapshot(r@.msg)), r@.sig_watchtower),
    {
        let k = self.log.len() as u64;
        let mut leaves: Vec<Vec<u8>> = Vec::new();
        let mut idx: usize = 0;
        while idx < self.log.len()
            invariant
                idx <= self.log@.len(),
                leaves@.len() == idx,
                forall|j: int|
                    0 <= j < idx ==> (#[trigger] leaves@[j])@ == sha256_of(
                        enc_record(self.log@[j]@),
                    ),
                forall|j: int| 0 <= j < idx ==> (#[trigger] leaves@[j])@.len() == 32,
            decreases self.log@.len() - idx,
        {
            let bytes = enc(&self.log[idx]);
            let lh = leaf_hash(bytes.as_slice());
            leaves.push(lh);
            idx += 1;
        }
        proof {
            assert(hash_views(leaves@) =~= leaves_of(self.log_view()));
        }
        let root = merkle_root(leaves);
        let msg = SnapshotMessage { epoch: self.epoch, log_len: k, merkle_root: root };
        let sig_watchtower = sign_struct(&self.sk_w, &msg);
        proof {
            assert(msg@ =~= self.snapshot_msg_spec());
        }
        SignedRosterSnapshot { msg, sig_watchtower }
    }

    /// Returns log entries `from..=to` (1-indexed, inclusive), exactly when
    /// `1 <= from <= to <= log_len`; `BadRange` otherwise.
    pub fn entries(&self, from: u64, to: u64) -> (r: Result<
        Vec<PartyRegistrationRecord>,
        WatchtowerError,
    >)
        ensures
            r is Ok <==> (1 <= from <= to <= self.log@.len()),
            r is Err ==> r == Err::<Vec<PartyRegistrationRecord>, WatchtowerError>(
                WatchtowerError::BadRange,
            ),
            r matches Ok(v) ==> prr_views(v@) == self.log_view().subrange(
                from as int - 1,
                to as int,
            ),
    {
        let k = self.log.len() as u64;
        if from == 0 || to == 0 || from > to || to > k {
            return Err(WatchtowerError::BadRange);
        }
        let start = (from - 1) as usize;
        let end = to as usize;
        let mut out: Vec<PartyRegistrationRecord> = Vec::new();
        let mut i: usize = start;
        while i < end
            invariant
                start <= i <= end <= self.log@.len(),
                out@.len() == i - start,
                forall|j: int|
                    0 <= j < out@.len() ==> (#[trigger] out@[j])@ == self.log@[start + j]@,
            decreases end - i,
        {
            let rec = clone_record(&self.log[i]);
            out.push(rec);
            i += 1;
        }
        proof {
            assert(prr_views(out@) =~= self.log_view().subrange(from as int - 1, to as int));
        }
        Ok(out)
    }
}

/// Sequence monotonicity per party: in a well-formed watchtower, the
/// accepted sequence numbers of any one party are strictly increasing in
/// acceptance (log) order.
pub proof fn lemma_seq_monotone_per_party(wt: WatchtowerState, i: int, j: int)
    requires
        wt.wf(),
        0 <= i < j < wt.log_view().len(),
        wt.log_view()[i].msg.party_id == wt.log_view()[j].msg.party_id,
    ensures
        wt.log_view()[i].msg.seq < wt.log_view()[j].msg.seq,
{
}

/// Snapshot consistency: when one watchtower state extends another (the log
/// is append-only, so any later state's log has an earlier state's log as a
/// prefix), the earlier snapshot's root is exactly the root of the first
/// `log_len` leaves of the later snapshot's tree.
pub proof fn lemma_snapshot_consistency_for_watchtower(wt1: WatchtowerState, wt2: WatchtowerState)
    requires
        wt1.log_view().len() <= wt2.log_view().len(),
        wt1.log_view() == wt2.log_view().subrange(0, wt1.log_view().len() as int),
    ensures
        wt1.snapshot_msg_spec().log_len <= wt2.snapshot_msg_spec().log_len,
        merkle_root_spec(
            leaves_of(wt2.log_view()).subrange(0, wt1.snapshot_msg_spec().log_len as int),
        ) == wt1.snapshot_msg_spec().merkle_root,
{
    assert(wt1.log.len() == wt1.log@.len());
    assert(wt2.log.len() == wt2.log@.len());
    crate::merkle::lemma_snapshot_consistency(wt1.log_view(), wt2.log_view());
}

/// A successful `register` preserves well-formedness: the appended record
/// was accepted with a seq above the party's previous floor.
proof fn lemma_register_preserves_wf(
    pre: WatchtowerState,
    post: WatchtowerState,
    p: PartyRegistrationRecordView,
)
    requires
        pre.wf(),
        pre.accepted_record(p),
        pre.last_seq@.contains_key(p.msg.party_id) ==> p.msg.seq
            > pre.last_seq@[p.msg.party_id],
        post.epoch == pre.epoch,
        post.sk_w == pre.sk_w,
        post.pk_w == pre.pk_w,
        post.log_view() == pre.log_view().push(p),
        post.last_seq@ == pre.last_seq@.insert(p.msg.party_id, p.msg.seq),
    ensures
        post.wf(),
{
    let n = pre.log_view().len() as int;
    assert forall|i: int| 0 <= i < post.log_view().len() implies post.accepted_record(
        #[trigger] post.log_view()[i],
    ) by {
        if i < n {
            assert(pre.accepted_record(pre.log_view()[i]));
        }
    }
    assert forall|i: int| 0 <= i < post.log_view().len() implies {
        let q = #[trigger] post.log_view()[i];
        &&& post.last_seq@.contains_key(q.msg.party_id)
        &&& q.msg.seq <= post.last_seq@[q.msg.party_id]
    } by {
        if i < n {
            let q = pre.log_view()[i];
            assert(pre.last_seq@.contains_key(q.msg.party_id));
            assert(q.msg.seq <= pre.last_seq@[q.msg.party_id]);
        }
    }
    assert forall|i: int, j: int|
        #![trigger post.log_view()[i], post.log_view()[j]]
        0 <= i < j < post.log_view().len() && post.log_view()[i].msg.party_id
            == post.log_view()[j].msg.party_id implies post.log_view()[i].msg.seq
        < post.log_view()[j].msg.seq by {
        if j < n {
            assert(pre.log_view()[i] == post.log_view()[i]);
            assert(pre.log_view()[j] == post.log_view()[j]);
        } else {
            let q = pre.log_view()[i];
            assert(q.msg.seq <= pre.last_seq@[q.msg.party_id]);
        }
    }
    assert forall|pid: u64| #[trigger] post.last_seq@.contains_key(pid) implies exists|i: int|
        0 <= i < post.log_view().len() && (#[trigger] post.log_view()[i]).msg.party_id == pid
            && post.log_view()[i].msg.seq == post.last_seq@[pid] by {
        if pid == p.msg.party_id {
            assert(post.log_view()[n].msg.party_id == pid && post.log_view()[n].msg.seq
                == post.last_seq@[pid]);
        } else {
            assert(pre.last_seq@.contains_key(pid));
            let i = choose|i: int|
                0 <= i < pre.log_view().len() && (#[trigger] pre.log_view()[i]).msg.party_id
                    == pid && pre.log_view()[i].msg.seq == pre.last_seq@[pid];
            assert(post.log_view()[i].msg.party_id == pid && post.log_view()[i].msg.seq
                == post.last_seq@[pid]);
        }
    }
}

} // verus!
