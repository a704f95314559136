//! What can go wrong in a call into the engine.

use vstd::prelude::*;

verus! {

/// Failure of a memoized call or of an interning request.
///
/// `E` is whatever the task layer raises when it refuses to build an
/// invocation; the engine hands it on as it got it.
#[derive(Debug, PartialEq, Eq)]
pub enum EngineError<E> {
    /// The caller runs outside every scheduled task: no engine is bound.
    NoAmbientEngine,
    /// The task layer refused to build the invocation.
    InvocationConstructionFailed(E),
    /// The cache did not run its decision step. Never produced.
    InvariantViolation,
}

} // verus!
