//! Trust core of a small token ledger: overflow-safe arithmetic, hashing and
//! seed construction, deterministic address derivation, account validation
//! and the three ledger state transitions.

pub mod error;
pub mod arith;
pub mod number_theory;
pub mod bytes;
pub mod address;
pub mod hashing;
pub mod derivation;
pub mod security;
pub mod account;
pub mod ledger;
pub mod pipeline;
pub mod laws;
