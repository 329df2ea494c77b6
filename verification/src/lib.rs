//! Per-owner task lists in a globally addressable record store.
//!
//! Every record's location is derived deterministically from a namespace tag,
//! the owner's identity, and (for tasks) a monotonically assigned index. The
//! crate provides the address deriver, the two record kinds, the
//! authority-guarded lifecycle operations, and an in-memory model of the
//! record store with its invariants.

pub mod errors;
pub mod states;
pub mod address;
pub mod lifecycle;
pub mod accounts;
pub mod store;
