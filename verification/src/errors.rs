use vstd::prelude::*;

verus! {

/// Failures of the run-state container.
///
/// Construction-time failures come from the feedback / objective
/// initializers; runtime failures come from looking up an unknown corpus
/// identifier or from violating the dynamic borrow discipline on a corpus
/// entry.
#[derive(Clone, Copy, Debug, PartialEq, Eq, Structural)]
pub enum Error {
    /// No corpus entry carries the requested identifier.
    KeyNotFound,
    /// A second exclusive handle to an entry was requested while the first
    /// is still outstanding, or an entry was returned that was never lent.
    BorrowConflict,
    /// A feedback or objective initializer reported failure, aborting
    /// construction.
    InitFailed,
}

} // verus!
