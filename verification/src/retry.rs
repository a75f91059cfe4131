//! The retry policy around the accelerator path.
//!
//! A failed accelerator attempt is retried up to a fixed maximum with a
//! delay that doubles each time; when the attempts are exhausted the
//! processor path runs exactly once, and if that also fails the error
//! surfaced to the caller is the last accelerator error.

use vstd::prelude::*;
use crate::errors::EngineError;

verus! {

/// Maximum accelerator attempts per tick.
pub const MAX_GPU_CALCULATION_RETRIES: u32 = 3;

/// Base delay between accelerator attempts, in milliseconds.
pub const GPU_RETRY_DELAY_MS: u64 = 500;

/// A reusable exponential-backoff policy with a single fallback.
#[derive(Clone, Copy, Debug, PartialEq, Eq, Structural)]
pub struct RetryPolicy {
    pub max_attempts: u32,
    pub base_delay_ms: u64,
}

/// What to do after a failed attempt.
#[derive(Clone, Copy, Debug, PartialEq, Eq, Structural)]
pub enum RetryDecision {
    /// Wait this long, then try the accelerator again.
    Retry { delay_ms: u64 },
    /// Attempts are exhausted: run the processor fallback once.
    Fallback,
}

/// Two to the given power.
pub open spec fn spec_pow2(n: nat) -> nat
    decreases n,
{
    if n == 0 {
        1
    } else {
        2 * spec_pow2((n - 1) as nat)
    }
}

impl RetryPolicy {
    /// Documented bounds that keep every delay representable.
    pub open spec fn wf(self) -> bool {
        &&& 1 <= self.max_attempts <= 16
        &&& self.base_delay_ms <= 1_000_000
    }

    /// The policy the engine ships with.
    pub fn standard() -> (r: RetryPolicy)
        ensures
            r.max_attempts == MAX_GPU_CALCULATION_RETRIES,
            r.base_delay_ms == GPU_RETRY_DELAY_MS,
            r.wf(),
    {
        RetryPolicy {
            max_attempts: MAX_GPU_CALCULATION_RETRIES,
            base_delay_ms: GPU_RETRY_DELAY_MS,
        }
    }

    /// The delay after the given zero-based failed attempt: the base delay
    /// doubled `attempt` times.
    pub open spec fn spec_delay(self, attempt: nat) -> nat {
        (self.base_delay_ms as nat) * spec_pow2(attempt)
    }

    /// Executable form of [`RetryPolicy::spec_delay`].
    pub fn delay_for_attempt(&self, attempt: u32) -> (r: u64)
        requires
            self.wf(),
            attempt < self.max_attempts,
        ensures
            r as nat == self.spec_delay(attempt as nat),
    {
        let mut d: u64 = self.base_delay_ms;
        let mut i: u32 = 0;
        proof {
            assert(spec_pow2(0) == 1);
            assert((self.base_delay_ms as nat) * 1 == self.base_delay_ms as nat) by (
            nonlinear_arith);
        }
        while i < attempt
            invariant
                i <= attempt,
                attempt < 16,
                self.base_delay_ms <= 1_000_000,
                d as nat == self.spec_delay(i as nat),
                d <= 0x4000_0000_0000,
            decreases attempt - i,
        {
            proof {
                lemma_pow2_small(i as nat);
                assert(spec_pow2((i + 1) as nat) == 2 * spec_pow2(i as nat));
                assert((self.base_delay_ms as nat) * spec_pow2((i + 1) as nat) == 2 * ((
                self.base_delay_ms as nat) * spec_pow2(i as nat))) by (nonlinear_arith)
                    requires
                        spec_pow2((i + 1) as nat) == 2 * spec_pow2(i as nat),
                ;
                assert((self.base_delay_ms as nat) * spec_pow2(i as nat) <= 1_000_000 * 16384)
                    by (nonlinear_arith)
                    requires
                        self.base_delay_ms <= 1_000_000,
                        spec_pow2(i as nat) <= 16384,
                ;
            }
            d = d * 2;
            i = i + 1;
        }
        d
    }

    /// The decision after one more failed attempt (zero-based): retry with
    /// the doubled delay while attempts remain, otherwise fall back.
    pub open spec fn spec_decision(self, attempt: nat) -> RetryDecision {
        if attempt + 1 < self.max_attempts {
            RetryDecision::Retry { delay_ms: self.spec_delay(attempt) as u64 }
        } else {
            RetryDecision::Fallback
        }
    }

    /// Executable form of [`RetryPolicy::spec_decision`].
    pub fn on_attempt_failure(&self, attempt: u32) -> (r: RetryDecision)
        requires
            self.wf(),
            attempt < self.max_attempts,
        ensures
            r == self.spec_decision(attempt as nat),
            (r is Fallback) <==> attempt + 1 == self.max_attempts,
    {
        if attempt + 1 < self.max_attempts {
            let delay = self.delay_for_attempt(attempt);
            proof {
                lemma_pow2_small(attempt as nat);
                assert((self.base_delay_ms as nat) * spec_pow2(attempt as nat) <= 1_000_000
                    * 16384) by (nonlinear_arith)
                    requires
                        self.base_delay_ms <= 1_000_000,
                        spec_pow2(attempt as nat) <= 16384,
                ;
            }
            RetryDecision::Retry { delay_ms: delay }
        } else {
            RetryDecision::Fallback
        }
    }
}

/// Powers of two never decrease.
proof fn lemma_pow2_le(a: nat, b: nat)
    requires
        a <= b,
    ensures
        spec_pow2(a) <= spec_pow2(b),
    decreases b,
{
    if a < b {
        lemma_pow2_le(a, (b - 1) as nat);
        assert(spec_pow2(b) == 2 * spec_pow2((b - 1) as nat));
    }
}

/// Powers of two below the attempt bound stay small.
proof fn lemma_pow2_small(n: nat)
    requires
        n <= 14,
    ensures
        1 <= spec_pow2(n) <= 16384,
{
    lemma_pow2_le(0, n);
    lemma_pow2_le(n, 14);
    assert(spec_pow2(14) == 16384) by {
        reveal_with_fuel(spec_pow2, 16);
    }
}

/// What the tick surfaces after the fallback ran: success if the
/// processor path succeeded, else the last accelerator error; the
/// processor error itself is never surfaced.
pub fn fallback_outcome(
    cpu_result: Result<(), EngineError>,
    last_gpu_error: EngineError,
) -> (r: Result<(), EngineError>)
    ensures
        r == if cpu_result is Ok {
            Result::<(), EngineError>::Ok(())
        } else {
            Result::<(), EngineError>::Err(last_gpu_error)
        },
{
    match cpu_result {
        Ok(()) => Ok(()),
        Err(_) => Err(last_gpu_error),
    }
}

/// The retry schedule: while attempts remain the decision is a retry whose
/// delay doubles each attempt, and the fallback is reached exactly when
/// the configured maximum of attempts has failed.
pub proof fn lemma_retry_schedule(p: RetryPolicy, attempt: nat)
    requires
        p.wf(),
        attempt + 1 < p.max_attempts,
    ensures
        p.spec_decision(attempt) is Retry,
        p.spec_delay(attempt + 1) == 2 * p.spec_delay(attempt),
        p.spec_decision((p.max_attempts - 1) as nat) is Fallback,
{
    assert(p.spec_delay(attempt + 1) == 2 * p.spec_delay(attempt)) by (nonlinear_arith)
        requires
            spec_pow2(attempt + 1) == 2 * spec_pow2(attempt),
            p.spec_delay(attempt + 1) == (p.base_delay_ms as nat) * spec_pow2(attempt + 1),
            p.spec_delay(attempt) == (p.base_delay_ms as nat) * spec_pow2(attempt),
    ;
}

} // verus!
