//! Message types of the protocol and their mathematical views.
//!
//! Byte fields are held as `Vec<u8>` with their widths stated by the
//! well-formedness predicates: public keys are 32 bytes, signatures 64
//! bytes, nonces 16 bytes, Merkle roots 32 bytes.

use vstd::prelude::*;

verus! {

/// Opaque reachability address ("host:port"), held as its raw UTF-8 bytes.
#[derive(Debug, Clone, PartialEq, Eq)]
pub struct Endpoint {
    pub addr: Vec<u8>,
}

impl View for Endpoint {
    type V = Seq<u8>;

    open spec fn view(&self) -> Seq<u8> {
        self.addr@
    }
}

/// Registration message: the canonical structure a party signs.
#[derive(Debug, Clone, PartialEq, Eq)]
pub struct RegistrationMessage {
    pub epoch: u64,
    pub party_id: u64,
    pub endpoint: Endpoint,
    /// Party public key (Ed25519), 32 raw bytes.
    pub pk_party: Vec<u8>,
    /// Strictly increasing per-party sequence number within an epoch.
    pub seq: u64,
    /// 16 random bytes for uniqueness.
    pub nonce: Vec<u8>,
}

#[verifier::ext_equal]
pub struct RegistrationMessageView {
    pub epoch: u64,
    pub party_id: u64,
    pub endpoint: Seq<u8>,
    pub pk_party: Seq<u8>,
    pub seq: u64,
    pub nonce: Seq<u8>,
}

impl RegistrationMessageView {
    pub open spec fn wf(self) -> bool {
        &&& self.pk_party.len() == 32
        &&& self.nonce.len() == 16
        &&& self.endpoint.len() <= u64::MAX
    }
}

impl View for RegistrationMessage {
    type V = RegistrationMessageView;

    open spec fn view(&self) -> RegistrationMessageView {
        RegistrationMessageView {
            epoch: self.epoch,
            party_id: self.party_id,
            endpoint: self.endpoint@,
            pk_party: self.pk_party@,
            seq: self.seq,
            nonce: self.nonce@,
        }
    }
}

/// Party registration record: a registration message plus the party's
/// signature over `sha256(enc(msg))`.
#[derive(Debug, Clone, PartialEq, Eq)]
pub struct PartyRegistrationRecord {
    pub msg: RegistrationMessage,
    /// Party signature, 64 bytes.
    pub sig_party: Vec<u8>,
}

#[verifier::ext_equal]
pub struct PartyRegistrationRecordView {
    pub msg: RegistrationMessageView,
    pub sig_party: Seq<u8>,
}

impl PartyRegistrationRecordView {
    pub open spec fn wf(self) -> bool {
        &&& self.msg.wf()
        &&& self.sig_party.len() == 64
    }
}

impl View for PartyRegistrationRecord {
    type V = PartyRegistrationRecordView;

    open spec fn view(&self) -> PartyRegistrationRecordView {
        PartyRegistrationRecordView { msg: self.msg@, sig_party: self.sig_party@ }
    }
}

/// Snapshot message: the structure the watchtower signs.
#[derive(Debug, Clone, PartialEq, Eq)]
pub struct SnapshotMessage {
    pub epoch: u64,
    pub log_len: u64,
    /// Merkle root, 32 bytes, committing to log entries `1..=log_len`.
    pub merkle_root: Vec<u8>,
}

#[verifier::ext_equal]
pub struct SnapshotMessageView {
    pub epoch: u64,
    pub log_len: u64,
    pub merkle_root: Seq<u8>,
}

impl SnapshotMessageView {
    pub open spec fn wf(self) -> bool {
        self.merkle_root.len() == 32
    }
}

impl View for SnapshotMessage {
    type V = SnapshotMessageView;

    open spec fn view(&self) -> SnapshotMessageView {
        SnapshotMessageView {
            epoch: self.epoch,
            log_len: self.log_len,
            merkle_root: self.merkle_root@,
        }
    }
}

/// Signed roster snapshot: a snapshot message plus the watchtower's
/// signature over `sha256(enc(msg))`.
#[derive(Debug, Clone, PartialEq, Eq)]
pub struct SignedRosterSnapshot {
    pub msg: SnapshotMessage,
    /// Watchtower signature, 64 bytes.
    pub sig_watchtower: Vec<u8>,
}

#[verifier::ext_equal]
pub struct SignedRosterSnapshotView {
    pub msg: SnapshotMessageView,
    pub sig_watchtower: Seq<u8>,
}

impl SignedRosterSnapshotView {
    pub open spec fn wf(self) -> bool {
        &&& self.msg.wf()
        &&& self.sig_watchtower.len() == 64
    }
}

impl View for SignedRosterSnapshot {
    type V = SignedRosterSnapshotView;

    open spec fn view(&self) -> SignedRosterSnapshotView {
        SignedRosterSnapshotView { msg: self.msg@, sig_watchtower: self.sig_watchtower@ }
    }
}

/// Request payload for registration.
#[derive(Debug, Clone, PartialEq, Eq)]
pub struct RegisterRequest {
    pub prr: PartyRegistrationRecord,
}

/// Response payload carrying a signed roster snapshot.
#[derive(Debug, Clone, PartialEq, Eq)]
pub struct SnapshotResponse {
    pub srs: SignedRosterSnapshot,
}

/// Response payload for a range of log entries, returned in log order.
#[derive(Debug, Clone, PartialEq, Eq)]
pub struct EntriesResponse {
    pub entries: Vec<PartyRegistrationRecord>,
}

/// Party-to-party gossip payload used for equivocation detection.
#[derive(Debug, Clone, PartialEq, Eq)]
pub struct GossipSnapshot {
    pub from_party_id: u64,
    pub srs: SignedRosterSnapshot,
}

/// Copies a record, preserving its view.
pub fn clone_record(p: &PartyRegistrationRecord) -> (r: PartyRegistrationRecord)
    ensures
        r@ == p@,
{
    let r = PartyRegistrationRecord {
        msg: RegistrationMessage {
            epoch: p.msg.epoch,
            party_id: p.msg.party_id,
            endpoint: Endpoint { addr: crate::codec::clone_bytes(&p.msg.endpoint.addr) },
            pk_party: crate::codec::clone_bytes(&p.msg.pk_party),
            seq: p.msg.seq,
            nonce: crate::codec::clone_bytes(&p.msg.nonce),
        },
        sig_party: crate::codec::clone_bytes(&p.sig_party),
    };
    proof {
        assert(r@.msg =~= p@.msg);
        assert(r@ =~= p@);
    }
    r
}

/// The views of a sequence of records, in order.
pub open spec fn prr_views(log: Seq<PartyRegistrationRecord>) -> Seq<PartyRegistrationRecordView> {
    Seq::new(log.len(), |i: int| log[i]@)
}

} // verus!
