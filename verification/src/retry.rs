//! The decisions of calls that are retried: what follows each attempt, how
//! long to wait before the next one, the errors reported when retries run
//! out, and the spacing of calls to an endpoint.

use vstd::prelude::*;
use crate::chain::AdapterError;
use crate::substrate::tracking::{spec_retry_delay, retry_delay};
use crate::text::{join, owned};

verus! {

broadcast use vstd::string::group_string_axioms;

/// Two to the power `n`.
pub open spec fn pow2(n: nat) -> nat
    decreases n,
{
    if n == 0 { 1 } else { 2 * pow2((n - 1) as nat) }
}

fn pow2_u64(n: u32) -> (r: u64)
    requires
        n < 64,
    ensures
        r == pow2(n as nat),
{
    let mut r: u64 = 1;
    let mut i: u32 = 0;
    proof {
        lemma_pow2_monotone(0, 63);
    }
    while i < n
        invariant
            i <= n < 64,
            r == pow2(i as nat),
            pow2(i as nat) <= pow2(63),
        decreases n - i,
    {
        proof {
            lemma_pow2_monotone((i + 1) as nat, 63);
            lemma_pow2_63();
        }
        r = r * 2;
        i += 1;
    }
    r
}

proof fn lemma_pow2_monotone(a: nat, b: nat)
    requires
        a <= b,
    ensures
        pow2(a) <= pow2(b),
    decreases b,
{
    if a < b {
        lemma_pow2_monotone(a, (b - 1) as nat);
    }
}

proof fn lemma_pow2_63()
    ensures
        pow2(63) * 2 <= u64::MAX + 1,
{
    reveal_with_fuel(pow2, 64);
}

/// The delay before retry number `attempt + 1` (counting from zero): `base`,
/// doubled `attempt` times when the backoff is exponential.
pub fn backoff(base: u64, attempt: u32, exponential: bool) -> (d: u64)
    requires
        attempt < 64,
        exponential ==> base * pow2(attempt as nat) <= u64::MAX,
    ensures
        d == if exponential { base * pow2(attempt as nat) } else { base as int },
{
    if exponential {
        let f = pow2_u64(attempt);
        proof {
            vstd::arithmetic::mul::lemma_mul_is_commutative(base as int, f as int);
        }
        base * f
    } else {
        base
    }
}

/// Attempts of one RPC call.
pub const MAX_RETRY_ATTEMPTS: u32 = 3;

/// What one attempt of a call came to.
#[derive(Debug, Clone, Copy, PartialEq, Eq, Structural)]
pub enum AttemptOutcome {
    Succeeded,
    Failed,
    TimedOut,
}

/// What to do after an attempt.
#[derive(Debug, Clone, Copy, PartialEq, Eq, Structural)]
pub enum RetryStep {
    /// The call succeeded.
    Done,
    /// Try again after the given number of milliseconds.
    RetryAfter(u64),
    /// The attempts are used up after failures.
    Exhausted,
    /// The call timed out and is not tried again.
    TimedOut,
}

/// The step after attempt `attempt` (from zero) of an Ethereum RPC call: a
/// failure is retried after 1 s doubled per attempt until the attempts are
/// used up; a timeout ends the call at once.
pub open spec fn spec_evm_step(attempt: u32, outcome: AttemptOutcome) -> RetryStep {
    match outcome {
        AttemptOutcome::Succeeded => RetryStep::Done,
        AttemptOutcome::Failed => if attempt + 1 < MAX_RETRY_ATTEMPTS {
            RetryStep::RetryAfter((1000 * pow2(attempt as nat)) as u64)
        } else {
            RetryStep::Exhausted
        },
        AttemptOutcome::TimedOut => RetryStep::TimedOut,
    }
}

/// The step after an attempt of an Ethereum RPC call.
pub fn evm_step(attempt: u32, outcome: AttemptOutcome) -> (s: RetryStep)
    requires
        attempt < MAX_RETRY_ATTEMPTS,
    ensures
        s == spec_evm_step(attempt, outcome),
        outcome == AttemptOutcome::Succeeded ==> s == RetryStep::Done,
        outcome == AttemptOutcome::Failed && attempt + 1 < MAX_RETRY_ATTEMPTS
            ==> s == RetryStep::RetryAfter((1000 * pow2(attempt as nat)) as u64),
        outcome == AttemptOutcome::Failed && attempt + 1 >= MAX_RETRY_ATTEMPTS ==> s == RetryStep::Exhausted,
        outcome == AttemptOutcome::TimedOut ==> s == RetryStep::TimedOut,
{
    match outcome {
        AttemptOutcome::Succeeded => RetryStep::Done,
        AttemptOutcome::Failed => {
            if attempt + 1 < MAX_RETRY_ATTEMPTS {
                let d: u64 = if attempt == 0 { 1000 } else { 2000 };
                proof {
                    reveal_with_fuel(pow2, 3);
                }
                RetryStep::RetryAfter(d)
            } else {
                RetryStep::Exhausted
            }
        },
        AttemptOutcome::TimedOut => RetryStep::TimedOut,
    }
}

/// The step after attempt `attempt` (from zero) of a Substrate RPC call: a
/// failure or a timeout is retried after 1 s doubled per attempt, at most
/// 30 s, until the attempts are used up.
pub open spec fn spec_substrate_step(attempt: u32, outcome: AttemptOutcome) -> RetryStep {
    match outcome {
        AttemptOutcome::Succeeded => RetryStep::Done,
        AttemptOutcome::Failed => if attempt + 1 < MAX_RETRY_ATTEMPTS {
            RetryStep::RetryAfter(spec_retry_delay(attempt) as u64)
        } else {
            RetryStep::Exhausted
        },
        AttemptOutcome::TimedOut => if attempt + 1 < MAX_RETRY_ATTEMPTS {
            RetryStep::RetryAfter(spec_retry_delay(attempt) as u64)
        } else {
            RetryStep::TimedOut
        },
    }
}

/// The wait before retrying a Substrate call after attempt `attempt`: 1 s
/// doubled per attempt, but at most 30 s.
pub open spec fn capped_backoff_ms(attempt: u32) -> int {
    if 1000 * pow2(attempt as nat) <= 30_000 { (1000 * pow2(attempt as nat)) as int } else { 30_000 }
}

/// The step after an attempt of a Substrate RPC call.
pub fn substrate_step(attempt: u32, outcome: AttemptOutcome) -> (s: RetryStep)
    requires
        attempt < MAX_RETRY_ATTEMPTS,
    ensures
        s == spec_substrate_step(attempt, outcome),
        outcome == AttemptOutcome::Succeeded ==> s == RetryStep::Done,
        outcome != AttemptOutcome::Succeeded && attempt + 1 < MAX_RETRY_ATTEMPTS
            ==> s == RetryStep::RetryAfter(capped_backoff_ms(attempt) as u64),
        outcome == AttemptOutcome::Failed && attempt + 1 >= MAX_RETRY_ATTEMPTS ==> s == RetryStep::Exhausted,
        outcome == AttemptOutcome::TimedOut && attempt + 1 >= MAX_RETRY_ATTEMPTS ==> s == RetryStep::TimedOut,
{
    proof {
        lemma_substrate_failures_are_retried(attempt, outcome);
    }
    match outcome {
        AttemptOutcome::Succeeded => RetryStep::Done,
        AttemptOutcome::Failed => {
            if attempt + 1 < MAX_RETRY_ATTEMPTS {
                RetryStep::RetryAfter(retry_delay(attempt))
            } else {
                RetryStep::Exhausted
            }
        },
        AttemptOutcome::TimedOut => {
            if attempt + 1 < MAX_RETRY_ATTEMPTS {
                RetryStep::RetryAfter(retry_delay(attempt))
            } else {
                RetryStep::TimedOut
            }
        },
    }
}

/// The error of an Ethereum RPC call whose attempts failed, with the text of
/// the last failure when there is one.
pub fn evm_exhausted_error(last_error: Option<&str>) -> (e: AdapterError)
    ensures
        e matches AdapterError::Network(m) && m@ == match last_error {
            Some(t) => "RPC call failed after 3 attempts: "@ + t@,
            None => "RPC call failed after maximum retry attempts"@,
        },
{
    match last_error {
        Some(t) => AdapterError::Network(join("RPC call failed after 3 attempts: ", t)),
        None => AdapterError::Network(owned("RPC call failed after maximum retry attempts")),
    }
}

/// The error of an Ethereum RPC call that timed out.
pub fn evm_timeout_error() -> (e: AdapterError)
    ensures
        e matches AdapterError::Network(m) && m@ == "Request timed out"@,
{
    AdapterError::Network(owned("Request timed out"))
}

/// The error of a Substrate RPC call whose attempts failed, with the text of
/// the last failure when there is one.
pub fn substrate_exhausted_error(last_error: Option<&str>) -> (e: AdapterError)
    ensures
        e matches AdapterError::Network(m) && m@ == match last_error {
            Some(t) => "RPC call failed after 3 attempts: "@ + t@,
            None => "RPC call failed after 3 retry attempts"@,
        },
{
    match last_error {
        Some(t) => AdapterError::Network(join("RPC call failed after 3 attempts: ", t)),
        None => AdapterError::Network(owned("RPC call failed after 3 retry attempts")),
    }
}

/// The error of a Substrate RPC call whose every attempt timed out.
pub fn substrate_timeout_error() -> (e: AdapterError)
    ensures
        e matches AdapterError::Network(m) && m@ == "Request timed out after all retry attempts"@,
{
    AdapterError::Network(owned("Request timed out after all retry attempts"))
}

/// The delay before the next attempt of a generic retried operation, or
/// `None` when attempt `attempt` (from zero) was the last of `max_retries + 1`:
/// the base delay, doubled per attempt when the backoff is exponential.
pub fn backoff_delay(attempt: u32, max_retries: u32, base_delay: u64, exponential: bool) -> (d: Option<u64>)
    requires
        attempt < 64,
        exponential ==> base_delay * pow2(attempt as nat) <= u64::MAX,
    ensures
        attempt >= max_retries ==> d is None,
        attempt < max_retries ==> d == Some((if exponential { base_delay * pow2(attempt as nat) } else { base_delay as int }) as u64),
{
    if attempt >= max_retries {
        return None;
    }
    Some(backoff(base_delay, attempt, exponential))
}

/// How long to wait before the next call so that calls are at least
/// `min_interval` apart, given the time since the last call (none if there
/// was none).
pub fn rate_limit_wait(since_last_call: Option<u64>, min_interval: u64) -> (w: u64)
    ensures
        w == match since_last_call {
            Some(e) => if e < min_interval { (min_interval - e) as u64 } else { 0 },
            None => 0,
        },
{
    match since_last_call {
        Some(e) => if e < min_interval { min_interval - e } else { 0 },
        None => 0,
    }
}

/// A Substrate call that fails or times out before its last attempt is tried
/// again, after 1 s doubled per attempt and at most 30 s; at the last attempt
/// a failure exhausts the call and a timeout ends it; success ends it at once.
/// The waits grow with the attempts.
pub proof fn lemma_substrate_failures_are_retried(attempt: u32, outcome: AttemptOutcome)
    requires
        attempt < MAX_RETRY_ATTEMPTS,
    ensures
        outcome == AttemptOutcome::Succeeded ==> spec_substrate_step(attempt, outcome) == RetryStep::Done,
        outcome != AttemptOutcome::Succeeded && attempt + 1 < MAX_RETRY_ATTEMPTS
            ==> spec_substrate_step(attempt, outcome) == RetryStep::RetryAfter(capped_backoff_ms(attempt) as u64),
        outcome == AttemptOutcome::Failed && attempt + 1 >= MAX_RETRY_ATTEMPTS
            ==> spec_substrate_step(attempt, outcome) == RetryStep::Exhausted,
        outcome == AttemptOutcome::TimedOut && attempt + 1 >= MAX_RETRY_ATTEMPTS
            ==> spec_substrate_step(attempt, outcome) == RetryStep::TimedOut,
        spec_substrate_step(0, AttemptOutcome::Failed) == RetryStep::RetryAfter(1000),
        spec_substrate_step(1, AttemptOutcome::Failed) == RetryStep::RetryAfter(2000),
{
    reveal_with_fuel(pow2, 3);
}

/// A call retried by a Substrate adapter never waits more than 30 s between
/// attempts, and the waits never shrink from one attempt to the next.
pub proof fn lemma_substrate_delays_bounded(a: u32, b: u32)
    requires
        a <= b,
    ensures
        spec_retry_delay(a) <= 30_000,
        spec_retry_delay(a) <= spec_retry_delay(b),
    decreases b - a,
{
    if a < b {
        lemma_substrate_delays_bounded(a, (b - 1) as u32);
        assert(pow2((b - 1) as nat + 1) == 2 * pow2((b - 1) as nat));
    }
}

} // verus!
