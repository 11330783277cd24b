//! Party-side verification: watchtower signature, log length, per-entry
//! signatures, and the recomputed Merkle root, in that order. All-or-nothing:
//! callers update local state only after full success.

use vstd::prelude::*;

use crate::codec::{bytes_eq, enc, enc_record, enc_registration, enc_snapshot};
use crate::crypto::{ed25519_pk_valid, ed25519_verifies, sha256_of, verify_struct};
use crate::merkle::{hash_views, leaf_hash, leaves_of, merkle_root, merkle_root_spec};
use crate::types::{
    prr_views, PartyRegistrationRecord, PartyRegistrationRecordView, SignedRosterSnapshot,
    SignedRosterSnapshotView,
};
use crate::watchtower::WatchtowerState;

verus! {

/// Failure modes of the party-side verifier. Entry indices are 0-based
/// positions in the fetched log (log index minus one).
#[derive(Debug, Clone, Copy, PartialEq, Eq)]
pub enum VerifyError {
    /// The watchtower signature on the snapshot does not verify.
    BadWatchtowerSig,
    /// The fetched log length differs from the snapshot's `log_len`.
    LengthMismatch,
    /// The record at this index carries a public key that does not decode.
    BadPartyKey(usize),
    /// The record at this index carries a signature that fails verification.
    BadPartySig(usize),
    /// The recomputed Merkle root differs from the snapshot's.
    RootMismatch,
}

/// Whether a record passes per-entry verification: its key decodes and its
/// signature strictly verifies over `sha256(enc(msg))`.
pub open spec fn entry_ok(p: PartyRegistrationRecordView) -> bool {
    &&& ed25519_pk_valid(p.msg.pk_party)
    &&& ed25519_verifies(p.msg.pk_party, sha256_of(enc_registration(p.msg)), p.sig_party)
}

/// The result of checking entries from index `i` on: the first failing
/// entry, keys checked before signatures.
pub open spec fn check_entries_from(log: Seq<PartyRegistrationRecordView>, i: int) -> Result<
    (),
    VerifyError,
>
    decreases log.len() - i,
{
    if i < 0 || i >= log.len() {
        Ok(())
    } else if !ed25519_pk_valid(log[i].msg.pk_party) {
        Err(VerifyError::BadPartyKey(i as usize))
    } else if !ed25519_verifies(
        log[i].msg.pk_party,
        sha256_of(enc_registration(log[i].msg)),
        log[i].sig_party,
    ) {
        Err(VerifyError::BadPartySig(i as usize))
    } else {
        check_entries_from(log, i + 1)
    }
}

/// Whether the watchtower signature on a snapshot verifies under `pk_w`.
pub open spec fn snapshot_sig_ok(pk_w: Seq<u8>, srs: SignedRosterSnapshotView) -> bool {
    &&& ed25519_pk_valid(pk_w)
    &&& ed25519_verifies(pk_w, sha256_of(enc_snapshot(srs.msg)), srs.sig_watchtower)
}

/// The verifier's decision on a snapshot and a fetched full log: the
/// watchtower signature, then the length, then each entry in order, then
/// the Merkle root.
pub open spec fn verify_result(
    pk_w: Seq<u8>,
    srs: SignedRosterSnapshotView,
    log: Seq<PartyRegistrationRecordView>,
) -> Result<(), VerifyError> {
    if !snapshot_sig_ok(pk_w, srs) {
        Err(VerifyError::BadWatchtowerSig)
    } else if log.len() != srs.msg.log_len {
        Err(VerifyError::LengthMismatch)
    } else if check_entries_from(log, 0) is Err {
        check_entries_from(log, 0)
    } else if merkle_root_spec(leaves_of(log)) != srs.msg.merkle_root {
        Err(VerifyError::RootMismatch)
    } else {
        Ok(())
    }
}

/// Verifies a snapshot and the full log it commits to. Returns exactly
/// `verify_result(pk_w, srs, log)`: `Ok` when and only when the watchtower
/// signature verifies, the log length matches, every record verifies, and
/// the recomputed Merkle root equals the committed one.
pub fn verify_snapshot_and_log(
    pk_w: &Vec<u8>,
    srs: &SignedRosterSnapshot,
    full_log: &Vec<PartyRegistrationRecord>,
) -> (r: Result<(), VerifyError>)
    requires
        pk_w@.len() == 32,
        srs@.wf(),
        forall|i: int| 0 <= i < full_log@.len() ==> (#[trigger] full_log@[i])@.wf(),
    ensures
        r == verify_result(pk_w@, srs@, prr_views(full_log@)),
{
    let ghost lg = prr_views(full_log@);
    match verify_struct(pk_w, &srs.msg, &srs.sig_watchtower) {
        Ok(()) => {},
        Err(_) => {
            return Err(VerifyError::BadWatchtowerSig);
        },
    }
    let k = srs.msg.log_len;
    if full_log.len() as u64 != k {
        return Err(VerifyError::LengthMismatch);
    }
    let mut leaves: Vec<Vec<u8>> = Vec::new();
    let mut i: usize = 0;
    while i < full_log.len()
        invariant
            lg == prr_views(full_log@),
            lg.len() == full_log@.len(),
            snapshot_sig_ok(pk_w@, srs@),
            lg.len() == srs@.msg.log_len,
            forall|j: int| 0 <= j < lg.len() ==> (#[trigger] full_log@[j])@.wf(),
            i <= lg.len(),
            check_entries_from(lg, 0) == check_entries_from(lg, i as int),
            leaves@.len() == i,
            forall|j: int|
                0 <= j < i ==> (#[trigger] leaves@[j])@ == sha256_of(enc_record(lg[j])),
            forall|j: int| 0 <= j < i ==> (#[trigger] leaves@[j])@.len() == 32,
        decreases lg.len() - i,
    {
        let prr = &full_log[i];
        proof {
            assert(lg[i as int] == full_log@[i as int]@);
        }
        match verify_struct(&prr.msg.pk_party, &prr.msg, &prr.sig_party) {
            Ok(()) => {},
            Err(crate::crypto::CryptoError::BadKey) => {
                proof {
                    assert(check_entries_from(lg, i as int) == Err::<(), VerifyError>(
                        VerifyError::BadPartyKey(i),
                    ));
                }
                return Err(VerifyError::BadPartyKey(i));
            },
            Err(crate::crypto::CryptoError::BadSignature) => {
                proof {
                    assert(check_entries_from(lg, i as int) == Err::<(), VerifyError>(
                        VerifyError::BadPartySig(i),
                    ));
                }
                return Err(VerifyError::BadPartySig(i));
            },
        }
        let bytes = enc(prr);
        let lh = leaf_hash(bytes.as_slice());
        leaves.push(lh);
        proof {
            assert(check_entries_from(lg, i as int) == check_entries_from(lg, i + 1));
        }
        i += 1;
    }
    let root = merkle_root(leaves);
    proof {
        assert(hash_views(leaves@) =~= leaves_of(lg));
    }
    if bytes_eq(&root, &srs.msg.merkle_root) {
        Ok(())
    } else {
        Err(VerifyError::RootMismatch)
    }
}

/// All entries of a log whose records all pass per-entry verification check
/// out, from any starting index.
proof fn lemma_check_entries_all_ok(log: Seq<PartyRegistrationRecordView>, i: int)
    requires
        0 <= i <= log.len(),
        forall|j: int| 0 <= j < log.len() ==> entry_ok(#[trigger] log[j]),
    ensures
        check_entries_from(log, i) == Ok::<(), VerifyError>(()),
    decreases log.len() - i,
{
    if i < log.len() {
        assert(entry_ok(log[i]));
        lemma_check_entries_all_ok(log, i + 1);
    }
}

/// Verifier round-trip: a snapshot issued by a well-formed watchtower,
/// together with that watchtower's full log, passes verification under the
/// watchtower's public key.
pub proof fn lemma_verifier_roundtrip(wt: WatchtowerState, srs: SignedRosterSnapshotView)
    requires
        wt.wf(),
        srs.msg == wt.snapshot_msg_spec(),
        ed25519_verifies(wt.pk_w@, sha256_of(enc_snapshot(srs.msg)), srs.sig_watchtower),
    ensures
        verify_result(wt.pk_w@, srs, wt.log_view()) == Ok::<(), VerifyError>(()),
{
    let log = wt.log_view();
    assert(wt.log.len() == wt.log@.len());
    assert forall|j: int| 0 <= j < log.len() implies entry_ok(#[trigger] log[j]) by {
        assert(wt.accepted_record(log[j]));
    }
    lemma_check_entries_all_ok(log, 0);
}

} // verus!
