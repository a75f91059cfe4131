//! Error kinds of the engine.

use vstd::prelude::*;

verus! {

/// Everything that can go wrong inside the engine.
#[derive(Clone, Copy, Debug, PartialEq, Eq, Structural)]
pub enum EngineError {
    /// The accelerator is absent or failed its self-test.
    ResourceUnavailable,
    /// One accelerator step or transfer failed; the attempt is retryable.
    ComputationFailure,
    /// Accelerator retries and the processor fallback both failed.
    FallbackExhausted,
    /// A graph rebuild was already running; the new request is rejected.
    ConcurrentRebuild,
    /// A shutdown was requested against a superseded instance.
    LifecycleConflict,
    /// A shutdown did not confirm within its deadline.
    Timeout,
}

} // verus!
