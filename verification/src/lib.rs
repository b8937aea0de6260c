//! Core engine for issuing and verifying signed structured records.
//!
//! The crate computes a standardized, deterministic 32-byte digest for a
//! structured record under a signing domain, produces and checks recoverable
//! signatures over that digest, and decodes ledger event logs into typed
//! results.  All encoding and hashing logic is verified; the hash primitive
//! and the elliptic-curve operations are called through trusted wrappers.

pub mod bytes;
pub mod errors;
pub mod keccak;
pub mod encode;
pub mod schema;
pub mod eip712;
pub mod records;
pub mod sign;
pub mod events;
