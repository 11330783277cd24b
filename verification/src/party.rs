//! Party-side state: building signed registration records, and the local
//! state file with its latest-seq roster, materialized from verified logs.

use std::collections::HashMap;
use vstd::prelude::*;

use crate::client::{verify_snapshot_and_log, verify_result, VerifyError};
use crate::codec::clone_bytes;
use crate::crypto::{
    base64_encode, base64_of, derive_verifying_key, ed25519_pk_of, ed25519_pk_valid,
    ed25519_sign_bytes, ed25519_verifies, sha256_of, sign_struct,
};
use crate::codec::enc_registration;
use crate::types::{
    prr_views, Endpoint, PartyRegistrationRecord, PartyRegistrationRecordView,
    RegistrationMessage, SignedRosterSnapshot,
};

verus! {

broadcast use vstd::std_specs::hash::group_hash_axioms;

/// A roster row: the latest-seq registration seen for one party.
#[derive(Debug, Clone, PartialEq, Eq)]
pub struct RosterEntry {
    pub endpoint: Vec<u8>,
    pub pk_party_b64: String,
    pub seq: u64,
}

#[verifier::ext_equal]
pub struct RosterEntryView {
    pub endpoint: Seq<u8>,
    pub pk_party_b64: Seq<char>,
    pub seq: u64,
}

impl View for RosterEntry {
    type V = RosterEntryView;

    open spec fn view(&self) -> RosterEntryView {
        RosterEntryView {
            endpoint: self.endpoint@,
            pk_party_b64: self.pk_party_b64@,
            seq: self.seq,
        }
    }
}

/// The mathematical roster: party id to roster row view.
pub open spec fn roster_view(m: Map<u64, RosterEntry>) -> Map<u64, RosterEntryView> {
    Map::new(|pid: u64| m.contains_key(pid), |pid: u64| m[pid]@)
}

/// The roster row a record materializes to.
pub open spec fn entry_of(p: PartyRegistrationRecordView) -> RosterEntryView {
    RosterEntryView {
        endpoint: p.msg.endpoint,
        pk_party_b64: base64_of(p.msg.pk_party),
        seq: p.msg.seq,
    }
}

/// The roster after applying one record: the record overwrites its party's
/// row exactly when the party is absent or the record's seq is greater.
pub open spec fn apply_one(
    roster: Map<u64, RosterEntryView>,
    p: PartyRegistrationRecordView,
) -> Map<u64, RosterEntryView> {
    if !roster.contains_key(p.msg.party_id) || roster[p.msg.party_id].seq < p.msg.seq {
        roster.insert(p.msg.party_id, entry_of(p))
    } else {
        roster
    }
}

/// The roster after applying records in order.
pub open spec fn apply_all(
    roster: Map<u64, RosterEntryView>,
    prrs: Seq<PartyRegistrationRecordView>,
) -> Map<u64, RosterEntryView>
    decreases prrs.len(),
{
    if prrs.len() == 0 {
        roster
    } else {
        apply_all(apply_one(roster, prrs[0]), prrs.drop_first())
    }
}

/// Builds this party's signed registration record: the message carries the
/// given fields and the party's public key (derived from the seed), and the
/// signature is the seed's deterministic Ed25519 signature over
/// `sha256(enc(msg))`, which verifies under that key.
pub fn build_prr(
    epoch: u64,
    party_id: u64,
    endpoint: Vec<u8>,
    sk_seed: &Vec<u8>,
    seq: u64,
    nonce: Vec<u8>,
) -> (r: PartyRegistrationRecord)
    requires
        sk_seed@.len() == 32,
        nonce@.len() == 16,
    ensures
        r@.wf(),
        r@.msg.epoch == epoch,
        r@.msg.party_id == party_id,
        r@.msg.endpoint == endpoint@,
        r@.msg.pk_party == ed25519_pk_of(sk_seed@),
        r@.msg.seq == seq,
        r@.msg.nonce == nonce@,
        ed25519_pk_valid(r@.msg.pk_party),
        r@.sig_party == ed25519_sign_bytes(sk_seed@, sha256_of(enc_registration(r@.msg))),
        ed25519_verifies(r@.msg.pk_party, sha256_of(enc_registration(r@.msg)), r@.sig_party),
{
    let pk_party = derive_verifying_key(sk_seed);
    proof {
        assert(endpoint.len() == endpoint@.len());
    }
    let msg = RegistrationMessage {
        epoch,
        party_id,
        endpoint: Endpoint { addr: endpoint },
        pk_party,
        seq,
        nonce,
    };
    let sig_party = sign_struct(sk_seed, &msg);
    PartyRegistrationRecord { msg, sig_party }
}

/// Per-party local state: identity, the next sequence number to use, the
/// last verified snapshot and log length, and the materialized roster.
pub struct PartyStateFile {
    pub epoch: u64,
    pub party_id: u64,
    /// Next seq to use if this party registers again.
    pub next_seq: u64,
    /// Last verified watchtower snapshot.
    pub current_srs: Option<SignedRosterSnapshot>,
    /// Log length of the last verified snapshot.
    pub last_log_len: u64,
    /// Latest-seq roster, materialized from verified logs.
    pub roster: HashMap<u64, RosterEntry>,
    /// How many entries the last sync fetched.
    pub last_entries_count: usize,
}

impl PartyStateFile {
    /// Fresh state for an `(epoch, party_id)` pair: `next_seq` is 1, no
    /// snapshot seen, an empty roster.
    pub fn new(epoch: u64, party_id: u64) -> (r: PartyStateFile)
        ensures
            r.epoch == epoch,
            r.party_id == party_id,
            r.next_seq == 1,
            r.current_srs is None,
            r.last_log_len == 0,
            r.roster@ == Map::<u64, RosterEntry>::empty(),
            r.last_entries_count == 0,
    {
        PartyStateFile {
            epoch,
            party_id,
            next_seq: 1,
            current_srs: None,
            last_log_len: 0,
            roster: HashMap::new(),
            last_entries_count: 0,
        }
    }

    /// Records a successful registration: stores the returned snapshot and
    /// advances `next_seq`, saturating at the maximum.
    pub fn note_registered(&mut self, srs: SignedRosterSnapshot)
        ensures
            final(self).current_srs == Some(srs),
            final(self).next_seq == if old(self).next_seq == u64::MAX {
                u64::MAX
            } else {
                (old(self).next_seq + 1) as u64
            },
            final(self).epoch == old(self).epoch,
            final(self).party_id == old(self).party_id,
            final(self).last_log_len == old(self).last_log_len,
            final(self).roster == old(self).roster,
            final(self).last_entries_count == old(self).last_entries_count,
    {
        self.current_srs = Some(srs);
        if self.next_seq < u64::MAX {
            self.next_seq = self.next_seq + 1;
        }
    }

    /// Applies records in log order: a record overwrites a party's roster
    /// row exactly when its seq is greater than the existing one (or the
    /// party is absent); equal seqs leave the row unchanged. Records how
    /// many entries were fetched.
    pub fn apply_prrs(&mut self, prrs: &Vec<PartyRegistrationRecord>)
        ensures
            roster_view(final(self).roster@) == apply_all(
                roster_view(old(self).roster@),
                prr_views(prrs@),
            ),
            final(self).last_entries_count == prrs@.len(),
            final(self).epoch == old(self).epoch,
            final(self).party_id == old(self).party_id,
            final(self).next_seq == old(self).next_seq,
            final(self).current_srs == old(self).current_srs,
            final(self).last_log_len == old(self).last_log_len,
    {
        let ghost orig = roster_view(self.roster@);
        let ghost pv = prr_views(prrs@);
        proof {
            assert(pv.subrange(0, pv.len() as int) =~= pv);
        }
        let mut i: usize = 0;
        while i < prrs.len()
            invariant
                pv == prr_views(prrs@),
                pv.len() == prrs@.len(),
                i <= pv.len(),
                apply_all(roster_view(self.roster@), pv.subrange(i as int, pv.len() as int))
                    == apply_all(orig, pv),
                self.epoch == old(self).epoch,
                self.party_id == old(self).party_id,
                self.next_seq == old(self).next_seq,
                self.current_srs == old(self).current_srs,
                self.last_log_len == old(self).last_log_len,
                self.last_entries_count == old(self).last_entries_count,
            decreases pv.len() - i,
        {
            let ghost prev = roster_view(self.roster@);
            let ghost rest = pv.subrange(i as int, pv.len() as int);
            let prr = &prrs[i];
            let pid = prr.msg.party_id;
            let seq = prr.msg.seq;
            let should_update = match self.roster.get(&pid) {
                None => true,
                Some(existing) => seq > existing.seq,
            };
            if should_update {
                let entry = RosterEntry {
                    endpoint: clone_bytes(&prr.msg.endpoint.addr),
                    pk_party_b64: base64_encode(&prr.msg.pk_party),
                    seq,
                };
                proof {
                    assert(entry@ =~= entry_of(pv[i as int]));
                }
                self.roster.insert(pid, entry);
                proof {
                    assert(roster_view(self.roster@) =~= apply_one(prev, pv[i as int]));
                }
            } else {
                proof {
                    assert(roster_view(self.roster@) =~= apply_one(prev, pv[i as int]));
                }
            }
            proof {
                assert(rest[0] == pv[i as int]);
                assert(rest.drop_first() =~= pv.subrange(i + 1, pv.len() as int));
                assert(apply_all(prev, rest) == apply_all(
                    apply_one(prev, pv[i as int]),
                    rest.drop_first(),
                ));
            }
            i += 1;
        }
        self.last_entries_count = prrs.len();
        proof {
            assert(pv.subrange(pv.len() as int, pv.len() as int) =~= Seq::<
                PartyRegistrationRecordView,
            >::empty());
        }
    }

    /// Applies a fetched snapshot and full log after end-to-end
    /// verification; all-or-nothing: on any verification failure the state
    /// is untouched, on success the snapshot is stored, the log length
    /// cached, and the roster materialized from the records in order.
    pub fn apply_verified_sync(
        &mut self,
        pk_w: &Vec<u8>,
        srs: SignedRosterSnapshot,
        entries: &Vec<PartyRegistrationRecord>,
    ) -> (r: Result<(), VerifyError>)
        requires
            pk_w@.len() == 32,
            srs@.wf(),
            forall|i: int| 0 <= i < entries@.len() ==> (#[trigger] entries@[i])@.wf(),
        ensures
            r == verify_result(pk_w@, srs@, prr_views(entries@)),
            r is Err ==> *final(self) == *old(self),
            r is Ok ==> {
                &&& final(self).current_srs == Some(srs)
                &&& final(self).last_log_len == srs@.msg.log_len
                &&& roster_view(final(self).roster@) == apply_all(
                    roster_view(old(self).roster@),
                    prr_views(entries@),
                )
                &&& final(self).last_entries_count == entries@.len()
                &&& final(self).epoch == old(self).epoch
                &&& final(self).party_id == old(self).party_id
                &&& final(self).next_seq == old(self).next_seq
            },
    {
        match verify_snapshot_and_log(pk_w, &srs, entries) {
            Ok(()) => {},
            Err(e) => {
                return Err(e);
            },
        }
        let k = srs.msg.log_len;
        self.current_srs = Some(srs);
        self.last_log_len = k;
        self.apply_prrs(entries);
        Ok(())
    }
}

/// Applying records never removes a roster row and never lowers its seq.
proof fn lemma_apply_monotone(
    roster: Map<u64, RosterEntryView>,
    prrs: Seq<PartyRegistrationRecordView>,
    pid: u64,
)
    requires
        roster.contains_key(pid),
    ensures
        apply_all(roster, prrs).contains_key(pid),
        apply_all(roster, prrs)[pid].seq >= roster[pid].seq,
    decreases prrs.len(),
{
    if prrs.len() > 0 {
        lemma_apply_monotone(apply_one(roster, prrs[0]), prrs.drop_first(), pid);
    }
}

/// After applying a record sequence, each record's party has a roster row
/// whose seq is at least the record's.
proof fn lemma_apply_dominates(
    roster: Map<u64, RosterEntryView>,
    prrs: Seq<PartyRegistrationRecordView>,
    j: int,
)
    requires
        0 <= j < prrs.len(),
    ensures
        apply_all(roster, prrs).contains_key(prrs[j].msg.party_id),
        apply_all(roster, prrs)[prrs[j].msg.party_id].seq >= prrs[j].msg.seq,
    decreases prrs.len(),
{
    let stepped = apply_one(roster, prrs[0]);
    if j == 0 {
        lemma_apply_monotone(stepped, prrs.drop_first(), prrs[0].msg.party_id);
    } else {
        lemma_apply_dominates(stepped, prrs.drop_first(), j - 1);
        assert(prrs.drop_first()[j - 1] == prrs[j]);
    }
}

/// Applying records that are all already dominated by the roster changes
/// nothing.
proof fn lemma_apply_dominated_noop(
    roster: Map<u64, RosterEntryView>,
    prrs: Seq<PartyRegistrationRecordView>,
)
    requires
        forall|j: int|
            0 <= j < prrs.len() ==> roster.contains_key(#[trigger] prrs[j].msg.party_id)
                && roster[prrs[j].msg.party_id].seq >= prrs[j].msg.seq,
    ensures
        apply_all(roster, prrs) == roster,
    decreases prrs.len(),
{
    if prrs.len() > 0 {
        assert(roster.contains_key(prrs[0].msg.party_id));
        assert(apply_one(roster, prrs[0]) == roster);
        assert forall|j: int| 0 <= j < prrs.drop_first().len() implies roster.contains_key(
            #[trigger] prrs.drop_first()[j].msg.party_id,
        ) && roster[prrs.drop_first()[j].msg.party_id].seq >= prrs.drop_first()[j].msg.seq by {
            assert(prrs.drop_first()[j] == prrs[j + 1]);
        }
        lemma_apply_dominated_noop(roster, prrs.drop_first());
    }
}

/// Roster idempotence: applying the same record sequence twice yields the
/// same roster as applying it once.
pub proof fn lemma_roster_idempotent(
    roster: Map<u64, RosterEntryView>,
    prrs: Seq<PartyRegistrationRecordView>,
)
    ensures
        apply_all(apply_all(roster, prrs), prrs) == apply_all(roster, prrs),
{
    let once = apply_all(roster, prrs);
    assert forall|j: int| 0 <= j < prrs.len() implies once.contains_key(
        #[trigger] prrs[j].msg.party_id,
    ) && once[prrs[j].msg.party_id].seq >= prrs[j].msg.seq by {
        lemma_apply_dominates(roster, prrs, j);
    }
    lemma_apply_dominated_noop(once, prrs);
}

} // verus!
