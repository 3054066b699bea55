//! Justified Atomic Merkleization: Merkle inclusion proofs over encoded items
//! and the validation lifecycle of cross-chain operations.

pub mod hashing;
pub mod merkle;
pub mod merkle_laws;
pub mod pipeline;
pub mod types;
pub mod validators;
pub mod session;
pub mod operations;
pub mod coordinator;
pub mod lifecycle_laws;
