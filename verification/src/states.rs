use vstd::prelude::*;

verus! {

/// A caller's unique, authenticable principal: 32 bytes of identity held as
/// four 64-bit little-endian words. The core only ever compares identities
/// for equality against stored owner fields.
#[derive(Clone, Copy, Debug, PartialEq, Eq, Structural)]
pub struct Identity {
    pub w0: u64,
    pub w1: u64,
    pub w2: u64,
    pub w3: u64,
}

/// Number of task indices an owner can ever use: indices are one byte.
pub const TASK_INDEX_SPAN: u16 = 256;

/// Bytes of the discriminant prefix every persisted record starts with.
pub const RECORD_DISCRIMINANT_BYTES: u64 = 8;

/// Bytes of a persisted identity.
pub const IDENTITY_BYTES: u64 = 32;

/// Largest content length a task record reserves space for.
pub const CONTENT_CAPACITY: u64 = 256;

/// Exact persisted size of a profile record: discriminant, owner, and the
/// two 16-bit counters. Allocation rents exactly this many bytes and
/// deletion would refund exactly this many.
pub const PROFILE_RECORD_SPACE: u64 = RECORD_DISCRIMINANT_BYTES + IDENTITY_BYTES + 2 + 2;

/// Exact persisted size of a task record: discriminant, owner, index, done
/// flag, content length prefix, and the content capacity.
pub const TASK_RECORD_SPACE: u64 = RECORD_DISCRIMINANT_BYTES + IDENTITY_BYTES + 1 + 1 + 4
    + CONTENT_CAPACITY;

/// Per-owner aggregate record: how many tasks the owner ever created and how
/// many are still active. `total_created` never decreases; `active_count`
/// never exceeds it.
#[derive(Clone, Copy, Debug, PartialEq, Eq, Structural)]
pub struct ProfileRecord {
    pub owner: Identity,
    pub total_created: u16,
    pub active_count: u16,
}

/// A single task: its owner, the index it was assigned at creation (never
/// reassigned, never reused), its content, and its done flag.
#[derive(Debug)]
pub struct TaskRecord {
    pub owner: Identity,
    pub index: u8,
    pub content: String,
    pub done: bool,
}

} // verus!
