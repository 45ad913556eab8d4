//! Self-sovereign identity records with time-bounded delegated access.
//!
//! The crate models the execution environment of the registry (a durable
//! key-value store, a ledger clock, the principals that have proved their
//! identity for the running invocation, and an append-only event log) as plain
//! values, and verifies the authorization and state-transition rules of the
//! registry against a mathematical model of that environment.

pub mod address;
pub mod contract;
pub mod env;
pub mod events;
pub mod guarantees;
pub mod records;
pub mod storage;
pub mod transitions;
