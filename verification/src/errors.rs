use vstd::prelude::*;

verus! {

/// Every way a lifecycle or addressing operation can fail. Each error is
/// terminal for the single operation that raised it: a failed operation has
/// no effect on any record.
#[derive(Clone, Copy, Debug, PartialEq, Eq, Structural)]
pub enum TodoError {
    /// A profile record already exists for this owner.
    AlreadyExists,
    /// No record exists at the derived address.
    NotFound,
    /// The caller's identity differs from the record's stored owner.
    AuthorityMismatch,
    /// A checked counter addition failed.
    CounterOverflow,
    /// The active-task counter was already zero on deletion.
    Underflow,
    /// The next task index would exceed the one-byte index space.
    IndexSpaceExhausted,
    /// The derived task address is already allocated (a consistency
    /// violation: fresh monotonic indices should never collide).
    CollisionDetected,
    /// The task's done flag was not in the state the marking policy demands.
    InvalidMarkState,
    /// No disambiguator in the search domain yields a backend-valid address.
    AddressSpaceExhausted,
}

} // verus!
