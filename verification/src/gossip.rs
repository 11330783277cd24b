//! Gossip equivocation detector: stores the last seen signed snapshot and
//! flags an incoming one that commits to a different log at the same epoch
//! and length. A flagged pair is transferable proof of equivocation, so the
//! stored snapshot is retained as evidence and not overwritten.

use vstd::prelude::*;

use crate::codec::{bytes_eq, enc_snapshot};
use crate::crypto::{ed25519_pk_valid, ed25519_verifies, sha256_of, verify_struct};
use crate::types::{GossipSnapshot, SignedRosterSnapshot, SnapshotMessageView};

verus! {

/// The gossip receiver's decision on an incoming snapshot.
#[derive(Debug, Clone, Copy, PartialEq, Eq)]
pub enum GossipOutcome {
    /// The snapshot verified and was stored as the last seen.
    Accepted,
    /// The watchtower signature did not verify; nothing was stored.
    BadWatchtowerSig,
    /// The snapshot conflicts with the stored one: same epoch and log
    /// length, different Merkle root. The stored snapshot is retained.
    Equivocation { epoch: u64, log_len: u64 },
}

/// Gossip state: the trusted watchtower key and the last seen snapshot.
pub struct GossipState {
    /// Trusted watchtower public key, 32 bytes.
    pub pk_w: Vec<u8>,
    /// The last verified snapshot received, if any.
    pub last: Option<SignedRosterSnapshot>,
}

impl GossipState {
    /// Well-formedness: the key is 32 bytes and any stored snapshot is
    /// well-formed.
    pub open spec fn wf(self) -> bool {
        &&& self.pk_w@.len() == 32
        &&& (self.last matches Some(s) ==> s@.wf())
    }

    /// Whether a snapshot message conflicts with the stored snapshot: same
    /// epoch and log length, different Merkle root.
    pub open spec fn equivocates(self, m: SnapshotMessageView) -> bool {
        self.last matches Some(prev) && prev@.msg.epoch == m.epoch && prev@.msg.log_len
            == m.log_len && prev@.msg.merkle_root != m.merkle_root
    }

    /// Creates a detector trusting `pk_w`, optionally seeded with a current
    /// snapshot.
    pub fn new(pk_w: Vec<u8>, last: Option<SignedRosterSnapshot>) -> (r: GossipState)
        requires
            pk_w@.len() == 32,
            last matches Some(s) ==> s@.wf(),
        ensures
            r.pk_w == pk_w,
            r.last == last,
            r.wf(),
    {
        GossipState { pk_w, last }
    }

    /// Handles an incoming gossip snapshot. Rejects exactly when the
    /// watchtower signature does not strictly verify; reports equivocation
    /// exactly when it verifies but conflicts with the stored snapshot, and
    /// then retains the stored one as evidence; otherwise stores it as the
    /// last seen and acknowledges.
    pub fn receive(&mut self, gs: GossipSnapshot) -> (r: GossipOutcome)
        requires
            old(self).wf(),
            gs.srs@.wf(),
        ensures
            final(self).wf(),
            final(self).pk_w == old(self).pk_w,
            r == GossipOutcome::BadWatchtowerSig <==> !(ed25519_pk_valid(old(self).pk_w@)
                && ed25519_verifies(
                old(self).pk_w@,
                sha256_of(enc_snapshot(gs.srs@.msg)),
                gs.srs@.sig_watchtower,
            )),
            r == (GossipOutcome::Equivocation {
                epoch: gs.srs@.msg.epoch,
                log_len: gs.srs@.msg.log_len,
            }) <==> (!(r == GossipOutcome::BadWatchtowerSig) && old(self).equivocates(
                gs.srs@.msg,
            )),
            r is Accepted <==> (!(r == GossipOutcome::BadWatchtowerSig) && !old(
                self,
            ).equivocates(gs.srs@.msg)),
            (r == GossipOutcome::BadWatchtowerSig || r is Equivocation) ==> *final(self) == *old(
                self,
            ),
            r is Accepted ==> final(self).last == Some(gs.srs),
    {
        match verify_struct(&self.pk_w, &gs.srs.msg, &gs.srs.sig_watchtower) {
            Ok(()) => {},
            Err(_) => {
                return GossipOutcome::BadWatchtowerSig;
            },
        }
        let epoch = gs.srs.msg.epoch;
        let log_len = gs.srs.msg.log_len;
        let conflict = match &self.last {
            Some(prev) => prev.msg.epoch == epoch && prev.msg.log_len == log_len && !bytes_eq(
                &prev.msg.merkle_root,
                &gs.srs.msg.merkle_root,
            ),
            None => false,
        };
        if conflict {
            return GossipOutcome::Equivocation { epoch, log_len };
        }
        self.last = Some(gs.srs);
        GossipOutcome::Accepted
    }
}

} // verus!
