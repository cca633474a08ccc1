//! Deterministic state-transition core of an execution layer that runs an
//! account-based virtual machine on top of a cell-based ledger.
//!
//! Two parts make up the crate: the batch executor in [`executor`], which
//! applies signed transactions to a world-state backend one after the other,
//! and the resolver in [`resolve`], which materialises every cell that a
//! cell-model transaction refers to. [`account`] reads the stored form of an
//! account.

pub mod primitive;
pub mod cell;
pub mod resolve;
pub mod executor;
pub mod account;
