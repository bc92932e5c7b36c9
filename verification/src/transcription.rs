//! Batch transcription jobs: identities, the retry policy and the retry
//! decisions.
use vstd::prelude::*;
use vstd::string::StringExecFns;
use std::time::Duration;
use crate::error::AppError;
use crate::time::{
    duration_from_millis, duration_min, duration_nanos, duration_saturating_mul,
    max_duration_nanos,
};

verus! {

#[derive(Debug, Clone, Copy, PartialEq, Eq, Structural)]
pub struct JobId(pub u64);

/// A result belongs to the job that is still current only when the ids agree.
pub fn is_current_job(active: Option<JobId>, received: JobId) -> (b: bool)
    ensures
        b == (active == Some(received)),
{
    match active {
        Some(id) => id.0 == received.0,
        None => false,
    }
}

pub open spec fn pow2_nat(k: nat) -> nat
    decreases k,
{
    if k == 0 {
        1
    } else {
        2 * pow2_nat((k - 1) as nat)
    }
}

/// How often and how patiently a transient failure is retried.
#[derive(Clone, Copy)]
pub struct RetryPolicy {
    max_attempts: usize,
    base_delay: Duration,
    max_delay: Duration,
}

pub const DEFAULT_MAX_ATTEMPTS: usize = 3;

impl RetryPolicy {
    pub closed spec fn attempts(self) -> nat {
        self.max_attempts as nat
    }

    pub closed spec fn base(self) -> Duration {
        self.base_delay
    }

    pub closed spec fn cap(self) -> Duration {
        self.max_delay
    }

    #[verifier::type_invariant]
    closed spec fn well_formed(self) -> bool {
        self.max_attempts >= 1
    }

    /// A policy that makes at least one attempt.
    pub fn new(max_attempts: usize, base_delay: Duration, max_delay: Duration) -> (p: RetryPolicy)
        ensures
            p.attempts() == if max_attempts == 0 {
                1
            } else {
                max_attempts as nat
            },
            p.base() == base_delay,
            p.cap() == max_delay,
    {
        RetryPolicy {
            max_attempts: if max_attempts == 0 {
                1
            } else {
                max_attempts
            },
            base_delay,
            max_delay,
        }
    }

    /// Three attempts, 500 ms base delay, 2 s maximum delay.
    pub fn default() -> (p: RetryPolicy)
        ensures
            p.attempts() == 3,
            duration_nanos(p.base()) == 500_000_000,
            duration_nanos(p.cap()) == 2_000_000_000,
    {
        RetryPolicy::new(DEFAULT_MAX_ATTEMPTS, duration_from_millis(500), duration_from_millis(2_000))
    }

    pub fn max_attempts(self) -> (n: usize)
        ensures
            n == self.attempts(),
            n >= 1,
    {
        proof {
            use_type_invariant(&self);
        }
        self.max_attempts
    }

    /// `d` is the delay before retry number `retry_index` (see
    /// `delay_before_retry`).
    pub open spec fn is_retry_delay(self, retry_index: nat, d: Duration) -> bool {
        let k: nat = if retry_index < 31 {
            retry_index
        } else {
            31
        };
        let grown = if duration_nanos(self.base()) * pow2_nat(k) <= max_duration_nanos() {
            duration_nanos(self.base()) * pow2_nat(k)
        } else {
            max_duration_nanos()
        };
        &&& grown <= duration_nanos(self.cap()) ==> duration_nanos(d) == grown
        &&& grown > duration_nanos(self.cap()) ==> d == self.cap()
        &&& duration_nanos(d) <= duration_nanos(self.cap())
    }

    /// The delay before retry number `retry_index` (counted from 0):
    /// `base * 2^min(retry_index, 31)`, saturating, capped at the maximum
    /// delay.
    pub fn delay_before_retry(self, retry_index: usize) -> (d: Duration)
        ensures
            self.is_retry_delay(retry_index as nat, d),
    {
        let k: usize = if retry_index < 31 {
            retry_index
        } else {
            31
        };
        let mut multiplier: u32 = 1;
        let mut j: usize = 0;
        while j < k
            invariant
                j <= k <= 31,
                multiplier == pow2_nat(j as nat),
                multiplier <= 0x8000_0000,
            decreases k - j,
        {
            proof {
                lemma_pow2_nat_bound(j as nat);
            }
            multiplier = multiplier * 2;
            j += 1;
        }
        let grown = duration_saturating_mul(self.base_delay, multiplier);
        duration_min(grown, self.max_delay)
    }
}

proof fn lemma_pow2_nat_bound(j: nat)
    requires
        j < 31,
    ensures
        pow2_nat(j) <= 0x4000_0000,
    decreases 30 - j,
{
    if j < 30 {
        lemma_pow2_nat_bound(j + 1);
        assert(pow2_nat(j + 1) == 2 * pow2_nat(j));
    } else {
        reveal_with_fuel(pow2_nat, 31);
        assert(pow2_nat(30) == 0x4000_0000);
    }
}

pub const RETRIES_EXHAUSTED_MESSAGE: &'static str = "重試次數已達上限";

impl RetryPolicy {
    /// A failed attempt is retried only when its error is transient and
    /// another attempt is left.
    pub open spec fn retries(self, attempt: nat, error: AppError) -> bool {
        (error matches AppError::Provider { retryable, .. } && retryable) && attempt + 1 < self.attempts()
    }

    /// Whether attempt number `attempt` (from zero), which failed with
    /// `error`, is followed by another.
    pub fn should_retry(self, attempt: usize, error: &AppError) -> (b: bool)
        ensures
            b == self.retries(attempt as nat, *error),
    {
        error.is_retryable() && attempt < self.max_attempts() - 1
    }
}

/// What follows an attempt: hand back its result, wait before the next
/// attempt, or give up with an error.
pub enum RetryStep<T> {
    Return(T),
    Wait(Duration),
    Fail(AppError),
}

impl RetryPolicy {
    /// Decides what follows attempt number `attempt` (from zero): a success
    /// is returned; a failure is retried after the delay for that attempt
    /// when the policy retries it, and is otherwise the job's error.
    pub fn after_attempt<T>(self, attempt: usize, outcome: Result<T, AppError>) -> (s: RetryStep<T>)
        ensures
            match outcome {
                Ok(v) => s == RetryStep::<T>::Return(v),
                Err(e) => if self.retries(attempt as nat, e) {
                    s matches RetryStep::Wait(d) && self.is_retry_delay(attempt as nat, d)
                } else {
                    s == RetryStep::<T>::Fail(e)
                },
            },
    {
        match outcome {
            Ok(v) => RetryStep::Return(v),
            Err(e) => if self.should_retry(attempt, &e) {
                RetryStep::Wait(self.delay_before_retry(attempt))
            } else {
                RetryStep::Fail(e)
            },
        }
    }
}

/// The error of a job whose attempts all ran out.
pub fn retries_exhausted() -> (e: AppError)
    ensures
        e matches AppError::Transcription(m) && m@ == RETRIES_EXHAUSTED_MESSAGE@,
{
    AppError::Transcription(String::from_str(RETRIES_EXHAUSTED_MESSAGE))
}

/// A job never makes more attempts than the policy allows: no retry
/// follows the last attempt, whatever the error.
pub proof fn lemma_retries_are_bounded(policy: RetryPolicy, attempt: nat, error: AppError)
    requires
        attempt + 1 >= policy.attempts(),
    ensures
        !policy.retries(attempt, error),
{
}

} // verus!
