//! Roster attestation core: an epoch-scoped, single-writer watchtower that
//! orders signed party registrations in an append-only log and commits to it
//! with signed Merkle snapshots; a party-side verifier that checks a snapshot
//! against the full log and materializes a roster; and a gossip receiver that
//! detects watchtower equivocation.

pub mod codec;
pub mod types;
pub mod crypto;
pub mod merkle;
pub mod watchtower;
pub mod client;
pub mod party;
pub mod gossip;
