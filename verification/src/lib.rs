//! Verified models of three Soroban contracts: a Poseidon-style hash
//! utility, a Groth16 verifying-key registry and verifier over BN254, and a
//! private transfer pool built on commitments and nullifiers.
//!
//! Every contract keeps its persistent storage in a value of its own type,
//! and every entry point is specified as a change of that storage. Where a
//! contract aborts, the entry point requires that the case does not arise,
//! and a `check_*` function tells which abort comes first; an aborted call
//! leaves the storage as it was.

pub mod bn254_verifier;
pub mod field;
pub mod host;
pub mod poseidon_hasher;
pub mod private_transfer;
pub mod store;
