//! Gossip equivocation detection: acceptance, rejection, conflict reporting
//! with evidence retention.

use roster_attest::gossip::{GossipOutcome, GossipState};
use roster_attest::party::build_prr;
use roster_attest::types::{GossipSnapshot, SignedRosterSnapshot, PartyRegistrationRecord};
use roster_attest::watchtower::WatchtowerState;

fn seed(n: u8) -> Vec<u8> {
    vec![n; 32]
}

fn prr(epoch: u64, pid: u64, ep: &[u8], key: u8, seq: u64) -> PartyRegistrationRecord {
    build_prr(epoch, pid, ep.to_vec(), &seed(key), seq, vec![key; 16])
}

/// Two snapshots signed by the same watchtower key, same epoch and log
/// length, different logs (an equivocation pair).
fn equivocation_pair() -> (Vec<u8>, SignedRosterSnapshot, SignedRosterSnapshot) {
    let mut wt1 = WatchtowerState::new(1, seed(200));
    let mut wt2 = WatchtowerState::new(1, seed(200));
    for pid in 1..=5u64 {
        let key = pid as u8;
        wt1.register(prr(1, pid, b"10.0.0.1:9000", key, 1)).unwrap();
        wt2.register(prr(1, pid, b"10.0.0.2:9000", key, 1)).unwrap();
    }
    let pk_w = wt1.watchtower_pubkey_bytes();
    (pk_w, wt1.snapshot(), wt2.snapshot())
}

#[test]
fn conflicting_snapshots_are_reported_and_evidence_retained() {
    let (pk_w, s1, s2) = equivocation_pair();
    assert_eq!(s1.msg.log_len, 5);
    assert_eq!(s2.msg.log_len, 5);
    assert_ne!(s1.msg.merkle_root, s2.msg.merkle_root);

    let mut g = GossipState::new(pk_w, None);
    assert_eq!(
        g.receive(GossipSnapshot { from_party_id: 1, srs: s1.clone() }),
        GossipOutcome::Accepted
    );
    assert_eq!(
        g.receive(GossipSnapshot { from_party_id: 2, srs: s2.clone() }),
        GossipOutcome::Equivocation { epoch: 1, log_len: 5 }
    );
    // The stored snapshot is retained: both signed artifacts remain held
    // (the incoming one stays with the caller).
    assert_eq!(g.last, Some(s1));
}

#[test]
fn matching_resend_is_accepted_and_stored() {
    let (pk_w, s1, _) = equivocation_pair();
    let mut g = GossipState::new(pk_w, None);
    assert_eq!(
        g.receive(GossipSnapshot { from_party_id: 1, srs: s1.clone() }),
        GossipOutcome::Accepted
    );
    // The same snapshot again is no conflict.
    assert_eq!(
        g.receive(GossipSnapshot { from_party_id: 3, srs: s1.clone() }),
        GossipOutcome::Accepted
    );
    assert_eq!(g.last, Some(s1));
}

#[test]
fn different_log_len_is_no_conflict() {
    let mut wt = WatchtowerState::new(1, seed(200));
    wt.register(prr(1, 1, b"10.0.0.1:9000", 1, 1)).unwrap();
    let s1 = wt.snapshot();
    wt.register(prr(1, 2, b"10.0.0.2:9000", 2, 1)).unwrap();
    let s2 = wt.snapshot();
    let pk_w = wt.watchtower_pubkey_bytes();
    let mut g = GossipState::new(pk_w, None);
    assert_eq!(g.receive(GossipSnapshot { from_party_id: 1, srs: s1 }), GossipOutcome::Accepted);
    assert_eq!(
        g.receive(GossipSnapshot { from_party_id: 1, srs: s2.clone() }),
        GossipOutcome::Accepted
    );
    assert_eq!(g.last, Some(s2));
}

#[test]
fn invalid_watchtower_signature_is_rejected_and_not_stored() {
    let (pk_w, s1, _) = equivocation_pair();
    let mut tampered = s1;
    tampered.sig_watchtower[0] ^= 1;
    let mut g = GossipState::new(pk_w, None);
    assert_eq!(
        g.receive(GossipSnapshot { from_party_id: 1, srs: tampered }),
        GossipOutcome::BadWatchtowerSig
    );
    assert_eq!(g.last, None);
}

#[test]
fn detector_can_start_from_a_current_snapshot() {
    let (pk_w, s1, s2) = equivocation_pair();
    let mut g = GossipState::new(pk_w, Some(s1.clone()));
    assert_eq!(
        g.receive(GossipSnapshot { from_party_id: 2, srs: s2 }),
        GossipOutcome::Equivocation { epoch: 1, log_len: 5 }
    );
    assert_eq!(g.last, Some(s1));
}
