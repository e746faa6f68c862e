//! An in-process simulation harness for ledger-style contracts.
//!
//! The crate provides a deterministic, single-threaded mock of a ledger
//! runtime: an account ledger with conserved per-denomination totals, a
//! registry of contract implementations, a directory of contract instances
//! with isolated key-value stores, and a message router that dispatches
//! opaque envelopes to contract entry points with all-or-nothing rollback.
//! A builder assembles a pre-seeded environment around a single instantiated
//! contract, and an environment handle exposes query, execute and
//! instantiate operations to test code.
//!
//! The central guarantees are stated as contracts and proved. Every routing
//! operation preserves each denomination's total supply across the whole
//! ledger; only seeding mints value, by exactly the seeded amounts. Any call
//! whose entry point fails leaves the ledger and every instance store
//! exactly as they were before the call. Instantiation always returns a
//! previously unassigned address and never reuses one. Query entry points
//! receive only an immutable view of state, so no contract implementation
//! can mutate anything from a query.

pub mod codec;
pub mod contract;
pub mod env;
pub mod errors;
pub mod ledger;
pub mod router;
pub mod store;
pub mod swap;
pub mod types;
