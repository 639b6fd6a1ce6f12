use vstd::prelude::*;

verus! {

/// The failure taxonomy of the core. Every failure is terminal for the
/// whole process: the host is expected to abort on receiving one.
///
/// - `InvariantViolation`: a caller defect — acquiring an empty, borrowed
///   or deleted arena slot, treating an object as the wrong concrete kind,
///   referring to a scheduler slot that was never created, or a task that
///   fails to reach a suspension point within its per-tick budget.
/// - `ResourceUnavailable`: an external asynchronous load reported failure.
#[derive(Clone, Copy, PartialEq, Eq, Structural, Debug)]
pub enum FatalError {
    InvariantViolation,
    ResourceUnavailable,
}

} // verus!
