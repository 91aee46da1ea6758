//! Search for elliptic-curve keypairs whose public blockchain address ends in
//! a caller-chosen vanity pattern: random keypair generation, deterministic
//! address derivation (hash chain, checksum, Base58 encoding), suffix pattern
//! matching, and the batch-search bookkeeping around them.

pub mod engine;
pub mod hybrid;
pub mod pattern;
