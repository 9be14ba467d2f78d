//! Health bookkeeping of an adapter's connection to its chain: call counters,
//! the average response time, and the connection status derived from them.

use vstd::prelude::*;
use crate::chain::AdapterError;
use crate::digest::{decimal_string, decimal_text, now_millis};
use crate::text::join;

verus! {

/// State of an adapter's connection to its chain.
#[derive(Debug, Clone, Copy, PartialEq, Eq, Structural)]
pub enum ConnectionStatus {
    Healthy,
    Degraded,
    Unhealthy,
    Unknown,
}

impl Default for ConnectionStatus {
    fn default() -> (s: ConnectionStatus)
        ensures
            s == ConnectionStatus::Unknown,
    {
        ConnectionStatus::Unknown
    }
}

/// Consecutive failures beyond which a connection is unhealthy.
pub const MAX_CONSECUTIVE_FAILURES: u32 = 5;

/// Average response time, in nanoseconds, beyond which a connection is
/// degraded (five seconds).
pub const SLOW_RESPONSE_NANOS: u64 = 5_000_000_000;

/// Health and performance counters of an adapter. Times are in milliseconds
/// since the Unix epoch; the average response time is in nanoseconds.
#[derive(Debug, Clone, Copy)]
pub struct HealthMetrics {
    pub last_successful_timestamp: Option<u64>,
    pub consecutive_failures: u32,
    pub total_calls: u64,
    pub failed_calls: u64,
    pub avg_response_time: u64,
    pub connection_status: ConnectionStatus,
    pub last_updated_timestamp: u64,
    pub latest_block_seen: Option<u32>,
}

/// The average after one more sample: the mean of `n - 1` samples averaging
/// `avg` and the new sample `rt`, rounded down.
pub open spec fn next_average(avg: u64, n: u64, rt: u64) -> u64
    recommends
        n >= 1,
{
    ((avg * (n - 1) + rt) / (n as int)) as u64
}

impl HealthMetrics {
    /// Fresh counters, updated at `now`.
    pub open spec fn spec_new_at(now: u64) -> HealthMetrics {
        HealthMetrics {
            last_successful_timestamp: None,
            consecutive_failures: 0,
            total_calls: 0,
            failed_calls: 0,
            avg_response_time: 0,
            connection_status: ConnectionStatus::Unknown,
            last_updated_timestamp: now,
            latest_block_seen: None,
        }
    }

    /// Failed calls are among the calls made.
    pub open spec fn wf(&self) -> bool {
        self.failed_calls <= self.total_calls
    }

    /// Fresh counters, updated at `now` (milliseconds).
    pub fn new_at(now: u64) -> (m: HealthMetrics)
        ensures
            m.wf(),
            m == HealthMetrics::spec_new_at(now),
    {
        HealthMetrics {
            last_successful_timestamp: None,
            consecutive_failures: 0,
            total_calls: 0,
            failed_calls: 0,
            avg_response_time: 0,
            connection_status: ConnectionStatus::Unknown,
            last_updated_timestamp: now,
            latest_block_seen: None,
        }
    }

    /// Successful calls so far.
    pub fn successful_calls(&self) -> (n: u64)
        requires
            self.wf(),
        ensures
            n == self.total_calls - self.failed_calls,
    {
        self.total_calls - self.failed_calls
    }

    /// Records a successful call that took `response_time` nanoseconds, at
    /// `now` (milliseconds): failures stop counting, the connection is
    /// healthy, and the average over successful calls takes the new sample.
    pub fn record_success(&mut self, response_time: u64, now: u64)
        requires
            old(self).wf(),
            old(self).total_calls < u64::MAX,
        ensures
            final(self).wf(),
            final(self).consecutive_failures == 0,
            final(self).total_calls == old(self).total_calls + 1,
            final(self).failed_calls == old(self).failed_calls,
            final(self).connection_status == ConnectionStatus::Healthy,
            final(self).last_successful_timestamp == Some(now),
            final(self).last_updated_timestamp == now,
            final(self).latest_block_seen == old(self).latest_block_seen,
            final(self).avg_response_time == next_average(
                old(self).avg_response_time,
                (final(self).total_calls - final(self).failed_calls) as u64,
                response_time,
            ),
    {
        self.last_successful_timestamp = Some(now);
        self.last_updated_timestamp = now;
        self.consecutive_failures = 0;
        self.total_calls = self.total_calls + 1;
        self.connection_status = ConnectionStatus::Healthy;
        let successful = self.total_calls - self.failed_calls;
        self.avg_response_time = average_with(self.avg_response_time, successful, response_time);
    }

    /// Records a failed call: past [`MAX_CONSECUTIVE_FAILURES`] consecutive
    /// failures the connection is unhealthy, before that degraded.
    pub fn record_failure(&mut self)
        requires
            old(self).wf(),
            old(self).total_calls < u64::MAX,
            old(self).consecutive_failures < u32::MAX,
        ensures
            final(self).wf(),
            final(self).consecutive_failures == old(self).consecutive_failures + 1,
            final(self).total_calls == old(self).total_calls + 1,
            final(self).failed_calls == old(self).failed_calls + 1,
            final(self).connection_status == if final(self).consecutive_failures > MAX_CONSECUTIVE_FAILURES {
                ConnectionStatus::Unhealthy
            } else {
                ConnectionStatus::Degraded
            },
            final(self).avg_response_time == old(self).avg_response_time,
            final(self).last_successful_timestamp == old(self).last_successful_timestamp,
            final(self).last_updated_timestamp == old(self).last_updated_timestamp,
            final(self).latest_block_seen == old(self).latest_block_seen,
    {
        self.consecutive_failures = self.consecutive_failures + 1;
        self.total_calls = self.total_calls + 1;
        self.failed_calls = self.failed_calls + 1;
        self.connection_status = if self.consecutive_failures > MAX_CONSECUTIVE_FAILURES {
            ConnectionStatus::Unhealthy
        } else {
            ConnectionStatus::Degraded
        };
    }

    /// Records a failed call with the stricter grading of Substrate chains, at
    /// `now` (milliseconds): one or two consecutive failures leave the
    /// connection degraded, more make it unhealthy.
    pub fn record_failure_strict(&mut self, now: u64)
        requires
            old(self).wf(),
            old(self).total_calls < u64::MAX,
            old(self).consecutive_failures < u32::MAX,
        ensures
            final(self).wf(),
            final(self).consecutive_failures == old(self).consecutive_failures + 1,
            final(self).total_calls == old(self).total_calls + 1,
            final(self).failed_calls == old(self).failed_calls + 1,
            final(self).connection_status == if final(self).consecutive_failures <= 2 {
                ConnectionStatus::Degraded
            } else {
                ConnectionStatus::Unhealthy
            },
            final(self).last_updated_timestamp == now,
            final(self).avg_response_time == old(self).avg_response_time,
            final(self).last_successful_timestamp == old(self).last_successful_timestamp,
            final(self).latest_block_seen == old(self).latest_block_seen,
    {
        self.consecutive_failures = self.consecutive_failures + 1;
        self.total_calls = self.total_calls + 1;
        self.failed_calls = self.failed_calls + 1;
        self.last_updated_timestamp = now;
        self.connection_status = if self.consecutive_failures <= 2 {
            ConnectionStatus::Degraded
        } else {
            ConnectionStatus::Unhealthy
        };
    }

    /// Records one operation, successful or not, that took `response_time`
    /// nanoseconds, at `now` (milliseconds). The average runs over all
    /// operations; the connection is unhealthy past
    /// [`MAX_CONSECUTIVE_FAILURES`] consecutive failures, else degraded when
    /// the average exceeds [`SLOW_RESPONSE_NANOS`], else healthy.
    pub fn record_operation(&mut self, success: bool, response_time: u64, now: u64)
        requires
            old(self).wf(),
            old(self).total_calls < u64::MAX,
            old(self).consecutive_failures < u32::MAX,
        ensures
            final(self).wf(),
            final(self).total_calls == old(self).total_calls + 1,
            final(self).failed_calls == old(self).failed_calls + if success { 0int } else { 1int },
            final(self).consecutive_failures == if success { 0 } else { old(self).consecutive_failures + 1 },
            final(self).last_successful_timestamp == if success { Some(now) } else { old(self).last_successful_timestamp },
            final(self).avg_response_time == next_average(old(self).avg_response_time, final(self).total_calls, response_time),
            final(self).connection_status == if final(self).consecutive_failures > MAX_CONSECUTIVE_FAILURES {
                ConnectionStatus::Unhealthy
            } else if final(self).avg_response_time > SLOW_RESPONSE_NANOS {
                ConnectionStatus::Degraded
            } else {
                ConnectionStatus::Healthy
            },
            final(self).last_updated_timestamp == now,
            final(self).latest_block_seen == old(self).latest_block_seen,
    {
        self.total_calls = self.total_calls + 1;
        if !success {
            self.failed_calls = self.failed_calls + 1;
            self.consecutive_failures = self.consecutive_failures + 1;
        } else {
            self.consecutive_failures = 0;
            self.last_successful_timestamp = Some(now);
        }
        self.last_updated_timestamp = now;
        self.avg_response_time = average_with(self.avg_response_time, self.total_calls, response_time);
        self.connection_status = if self.consecutive_failures > MAX_CONSECUTIVE_FAILURES {
            ConnectionStatus::Unhealthy
        } else if self.avg_response_time > SLOW_RESPONSE_NANOS {
            ConnectionStatus::Degraded
        } else {
            ConnectionStatus::Healthy
        };
    }

    /// Records the outcome of a periodic health probe at `now`
    /// (milliseconds).
    pub fn record_probe(&mut self, outcome: ProbeOutcome, now: u64)
        requires
            old(self).consecutive_failures < u32::MAX,
        ensures
            *final(self) == spec_after_probe(*old(self), outcome, now),
            outcome matches ProbeOutcome::Header(n) ==> {
                &&& final(self).consecutive_failures == 0
                &&& final(self).connection_status == ConnectionStatus::Healthy
                &&& final(self).latest_block_seen == Some(n)
                &&& final(self).last_successful_timestamp == Some(now)
            },
            !(outcome is Header) ==> final(self).consecutive_failures == old(self).consecutive_failures + 1,
            (outcome is NoHeader || outcome is Failed) ==> (final(self).connection_status == ConnectionStatus::Unhealthy
                <==> final(self).consecutive_failures > MAX_CONSECUTIVE_FAILURES),
            outcome is TimedOut ==> final(self).connection_status == ConnectionStatus::Unhealthy,
            final(self).total_calls == old(self).total_calls,
            final(self).failed_calls == old(self).failed_calls,
            final(self).avg_response_time == old(self).avg_response_time,
            final(self).last_updated_timestamp == now,
    {
        self.last_updated_timestamp = now;
        match outcome {
            ProbeOutcome::Header(number) => {
                self.connection_status = ConnectionStatus::Healthy;
                self.consecutive_failures = 0;
                self.latest_block_seen = Some(number);
                self.last_successful_timestamp = Some(now);
            },
            ProbeOutcome::NoHeader | ProbeOutcome::Failed => {
                self.consecutive_failures = self.consecutive_failures + 1;
                self.connection_status = if self.consecutive_failures > MAX_CONSECUTIVE_FAILURES {
                    ConnectionStatus::Unhealthy
                } else {
                    ConnectionStatus::Degraded
                };
            },
            ProbeOutcome::TimedOut => {
                self.consecutive_failures = self.consecutive_failures + 1;
                self.connection_status = ConnectionStatus::Unhealthy;
            },
        }
    }

    /// What a health check concludes from the counters: an unhealthy
    /// connection fails with the count of consecutive failures; any other
    /// status passes.
    pub fn verdict(&self) -> (r: Result<(), AdapterError>)
        ensures
            self.connection_status != ConnectionStatus::Unhealthy ==> r is Ok,
            self.connection_status == ConnectionStatus::Unhealthy ==> (r matches Err(AdapterError::Network(m))
                && m@ == "Unhealthy connection - "@ + decimal_text(self.consecutive_failures as u64)
                    + " consecutive failures"@),
    {
        match self.connection_status {
            ConnectionStatus::Unhealthy => {
                let n = decimal_string(self.consecutive_failures as u64);
                let head = join("Unhealthy connection - ", n.as_str());
                Err(AdapterError::Network(join(head.as_str(), " consecutive failures")))
            },
            _ => Ok(()),
        }
    }
}

impl Default for HealthMetrics {
    /// Fresh counters, updated now.
    fn default() -> (m: HealthMetrics)
        ensures
            m.wf(),
            m.last_successful_timestamp is None,
            m.consecutive_failures == 0,
            m.total_calls == 0,
            m.failed_calls == 0,
            m.avg_response_time == 0,
            m.connection_status == ConnectionStatus::Unknown,
            m.latest_block_seen is None,
    {
        HealthMetrics::new_at(now_millis())
    }
}

/// The outcome of a periodic health probe of a chain.
#[derive(Debug, Clone, Copy, PartialEq, Eq, Structural)]
pub enum ProbeOutcome {
    /// The latest block header came back, with its number.
    Header(u32),
    /// The call succeeded but no header came back.
    NoHeader,
    /// The call failed.
    Failed,
    /// The call did not answer in time.
    TimedOut,
}

/// The counters after a health probe with the given outcome at `now`: a
/// header makes the connection healthy and records the block; no header or a
/// failure counts a failure and degrades the connection, or makes it unhealthy
/// past [`MAX_CONSECUTIVE_FAILURES`]; a timeout counts a failure and makes it
/// unhealthy.
pub open spec fn spec_after_probe(m: HealthMetrics, outcome: ProbeOutcome, now: u64) -> HealthMetrics {
    match outcome {
        ProbeOutcome::Header(number) => HealthMetrics {
            connection_status: ConnectionStatus::Healthy,
            consecutive_failures: 0,
            latest_block_seen: Some(number),
            last_successful_timestamp: Some(now),
            last_updated_timestamp: now,
            ..m
        },
        ProbeOutcome::NoHeader | ProbeOutcome::Failed => HealthMetrics {
            consecutive_failures: (m.consecutive_failures + 1) as u32,
            connection_status: if m.consecutive_failures + 1 > MAX_CONSECUTIVE_FAILURES {
                ConnectionStatus::Unhealthy
            } else {
                ConnectionStatus::Degraded
            },
            last_updated_timestamp: now,
            ..m
        },
        ProbeOutcome::TimedOut => HealthMetrics {
            consecutive_failures: (m.consecutive_failures + 1) as u32,
            connection_status: ConnectionStatus::Unhealthy,
            last_updated_timestamp: now,
            ..m
        },
    }
}

/// A probe that brings back a header clears the run of failures and makes the
/// connection healthy; every other probe adds one failure to the run, so that
/// after a header and `k` failed probes the run is `k` long. No probe touches
/// the call counters.
pub proof fn lemma_probe_failure_run(m: HealthMetrics, n: u32, now: u64, outcome: ProbeOutcome, later: u64)
    requires
        m.consecutive_failures < u32::MAX,
    ensures
        spec_after_probe(m, ProbeOutcome::Header(n), now).consecutive_failures == 0,
        spec_after_probe(m, ProbeOutcome::Header(n), now).connection_status == ConnectionStatus::Healthy,
        spec_after_probe(m, ProbeOutcome::Header(n), now).latest_block_seen == Some(n),
        !(outcome is Header) ==> spec_after_probe(m, outcome, now).consecutive_failures == m.consecutive_failures + 1,
        !(outcome is Header) ==> spec_after_probe(spec_after_probe(m, ProbeOutcome::Header(n), now), outcome, later)
            .consecutive_failures == 1,
        (outcome is NoHeader || outcome is Failed) ==> spec_after_probe(
            spec_after_probe(m, ProbeOutcome::Header(n), now), outcome, later).connection_status == ConnectionStatus::Degraded,
        spec_after_probe(m, outcome, now).total_calls == m.total_calls,
        spec_after_probe(m, outcome, now).failed_calls == m.failed_calls,
        spec_after_probe(m, outcome, now).avg_response_time == m.avg_response_time,
{
}

/// The average of `n` samples whose first `n - 1` average `avg`, with the
/// last one `rt`, rounded down; the first sample is its own average.
fn average_with(avg: u64, n: u64, rt: u64) -> (r: u64)
    requires
        n >= 1,
    ensures
        r == next_average(avg, n, rt),
        r <= if avg >= rt { avg } else { rt },
        r >= if avg <= rt { avg } else { rt },
{
    proof {
        lemma_average_bounds(avg as int, n as int, rt as int);
        assert((avg as int) * ((n - 1) as int) <= (avg as int) * ((n - 1) as int) + rt);
    }
    let total: u128 = (avg as u128) * ((n - 1) as u128) + (rt as u128);
    (total / (n as u128)) as u64
}

/// The rounded-down mean of `n - 1` copies of `avg` and one `rt` lies
/// between the two.
proof fn lemma_average_bounds(avg: int, n: int, rt: int)
    requires
        1 <= n <= u64::MAX,
        0 <= avg <= u64::MAX,
        0 <= rt <= u64::MAX,
    ensures
        avg * (n - 1) + rt <= u128::MAX,
        (avg * (n - 1) + rt) / n <= if avg >= rt { avg } else { rt },
        (avg * (n - 1) + rt) / n >= if avg <= rt { avg } else { rt },
{
    let hi = if avg >= rt { avg } else { rt };
    let lo = if avg <= rt { avg } else { rt };
    assert(avg * (n - 1) + rt <= u128::MAX) by (nonlinear_arith)
        requires n >= 1, 0 <= avg <= u64::MAX, 0 <= rt <= u64::MAX, n <= u64::MAX;
    assert(avg * (n - 1) + rt <= hi * n) by (nonlinear_arith)
        requires n >= 1, avg <= hi, rt <= hi, 0 <= avg;
    assert(avg * (n - 1) + rt >= lo * n) by (nonlinear_arith)
        requires n >= 1, avg >= lo, rt >= lo, 0 <= lo;
    assert((avg * (n - 1) + rt) / n <= hi) by (nonlinear_arith)
        requires n >= 1, avg * (n - 1) + rt <= hi * n, 0 <= avg * (n - 1) + rt;
    assert((avg * (n - 1) + rt) / n >= lo) by (nonlinear_arith)
        requires n >= 1, avg * (n - 1) + rt >= lo * n, 0 <= lo;
}

/// The average response time never leaves the range spanned by the previous
/// average and the new sample.
pub proof fn lemma_average_within_samples(avg: u64, n: u64, rt: u64)
    requires
        n >= 1,
    ensures
        next_average(avg, n, rt) <= if avg >= rt { avg } else { rt },
        next_average(avg, n, rt) >= if avg <= rt { avg } else { rt },
{
    lemma_average_bounds(avg as int, n as int, rt as int);
}

} // verus!
