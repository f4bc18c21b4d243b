//! Purchase-order lifecycle ledger: a fixed-size record layout, deterministic
//! per-order addressing, and a role-gated state machine over a record store.
pub mod addressing;
pub mod bytes;
pub mod identity;
pub mod layout;
pub mod ledger;
pub mod order;
