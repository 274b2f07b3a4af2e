//! The error taxonomy of the render-graph compiler.

use vstd::prelude::*;

verus! {

/// Why a build, schedule or allocation pass was rejected.
///
/// Every pass is fail-fast: the first detected violation aborts the whole
/// update and the previously finalized state, if any, remains valid.
#[derive(Clone, Copy, Debug, PartialEq, Eq, Structural)]
pub enum RpsError {
    /// The graph is structurally invalid: a node references an undeclared
    /// resource, or the dependency relation contains a cycle.
    InvalidProgram,
    /// A bound view or payload is incompatible with the declared resource.
    TypeMismatch,
    /// Ranges overlap where exclusivity was required.
    RangeOverlapping,
    /// The memory budget of a heap was exhausted.
    OutOfMemory,
    /// A structural invariant of a declaration is violated, such as a zero
    /// extent or an empty subresource range.
    ValidationFailed,
    /// The requested flag or query combination is unavailable.
    NotSupported,
}

} // verus!
