//! Verified core of a personal-finance record store.
//!
//! The store holds accounts, transactions, categories, scheduled
//! transactions and a singleton settings row.  This crate models the
//! store as an in-memory value and proves the transition semantics of
//! every operation: insert-or-ignore creation, full-row updates keyed
//! by id, cascading account deletion, all-or-nothing bulk import,
//! settings upsert and reconstruction, and additive, idempotent schema
//! migration.  The surrounding process (connection handling, SQL
//! execution, the UI transport) performs the I/O and consults these
//! functions for every decision.

pub mod errors;
pub mod models;
pub mod schema;
pub mod store;
pub mod tables;
pub mod text;
