//! A simplified event-stream statistics collector: success and failure
//! events are batched locally and committed to the shared totals every
//! hundred events, so the hot path stays cheap; a read sees the committed
//! totals. Failures are counted apart from successes; since the event stream
//! carries no error taxonomy, a failure is reported under the catch-all
//! error class.
use vstd::prelude::*;
pub use crate::load_test::{ErrorStats, LoadTestResult};
use crate::load_test::{average_latency_spec, FLUSH_THRESHOLD};
use crate::load_test_utils::rps_milli_spec;

verus! {

/// The mathematical state of the collector: committed totals beside the
/// batch not yet committed. Latency is only ever contributed by successes.
pub ghost struct AsyncTotals {
    pub total: int,
    pub failed: int,
    pub total_latency: int,
    pub batch_total: int,
    pub batch_failed: int,
    pub batch_latency: int,
}

/// Everything counted so far, committed or not.
pub open spec fn accounted_total(t: AsyncTotals) -> int {
    t.total + t.batch_total
}

/// Every failure counted so far, committed or not.
pub open spec fn accounted_failed(t: AsyncTotals) -> int {
    t.failed + t.batch_failed
}

/// All success latency recorded so far, committed or not.
pub open spec fn accounted_latency(t: AsyncTotals) -> int {
    t.total_latency + t.batch_latency
}

/// The collector is well formed while failures never outnumber events and
/// the pending batch stays below the commit threshold.
pub open spec fn async_stats_wf(t: AsyncTotals) -> bool {
    &&& 0 <= t.failed <= t.total
    &&& 0 <= t.total_latency
    &&& 0 <= t.batch_failed <= t.batch_total < FLUSH_THRESHOLD
    &&& 0 <= t.batch_latency
}

/// The event-stream statistics collector.
pub struct AsyncStats {
    pub total_requests: u32,
    pub failed_requests: u32,
    pub total_latency: u64,
    pub batch_count: u32,
    pub batch_failed: u32,
    pub batch_latency: u64,
}

impl View for AsyncStats {
    type V = AsyncTotals;

    open spec fn view(&self) -> AsyncTotals {
        AsyncTotals {
            total: self.total_requests as int,
            failed: self.failed_requests as int,
            total_latency: self.total_latency as int,
            batch_total: self.batch_count as int,
            batch_failed: self.batch_failed as int,
            batch_latency: self.batch_latency as int,
        }
    }
}

impl AsyncStats {
    /// A fresh collector with nothing counted.
    pub fn new() -> (s: AsyncStats)
        ensures
            s@ == (AsyncTotals {
                total: 0,
                failed: 0,
                total_latency: 0,
                batch_total: 0,
                batch_failed: 0,
                batch_latency: 0,
            }),
            async_stats_wf(s@),
    {
        AsyncStats {
            total_requests: 0,
            failed_requests: 0,
            total_latency: 0,
            batch_count: 0,
            batch_failed: 0,
            batch_latency: 0,
        }
    }

    /// Commit the pending batch into the totals in one step.
    fn commit_batch(&mut self)
        requires
            old(self)@.total + old(self)@.batch_total <= u32::MAX,
            old(self)@.failed + old(self)@.batch_failed <= u32::MAX,
            old(self)@.total_latency + old(self)@.batch_latency <= u64::MAX,
        ensures
            final(self)@.total == accounted_total(old(self)@),
            final(self)@.failed == accounted_failed(old(self)@),
            final(self)@.total_latency == accounted_latency(old(self)@),
            final(self)@.batch_total == 0,
            final(self)@.batch_failed == 0,
            final(self)@.batch_latency == 0,
    {
        self.total_requests = self.total_requests + self.batch_count;
        self.failed_requests = self.failed_requests + self.batch_failed;
        self.total_latency = self.total_latency + self.batch_latency;
        self.batch_count = 0;
        self.batch_failed = 0;
        self.batch_latency = 0;
    }

    /// Count one successful request with its latency. Everything counted is
    /// preserved: either batched or, at the threshold, committed.
    pub fn record_success(&mut self, latency_ms: u64)
        requires
            async_stats_wf(old(self)@),
            accounted_total(old(self)@) + 1 <= u32::MAX,
            accounted_latency(old(self)@) + latency_ms <= u64::MAX,
        ensures
            async_stats_wf(final(self)@),
            accounted_total(final(self)@) == accounted_total(old(self)@) + 1,
            accounted_failed(final(self)@) == accounted_failed(old(self)@),
            accounted_latency(final(self)@) == accounted_latency(old(self)@) + latency_ms,
            final(self)@.total >= old(self)@.total,
    {
        self.batch_count = self.batch_count + 1;
        self.batch_latency = self.batch_latency + latency_ms;
        if self.batch_count >= FLUSH_THRESHOLD {
            self.commit_batch();
        }
    }

    /// Count one failed request. It counts towards the total and the failure
    /// count; no latency is recorded.
    pub fn record_failure(&mut self)
        requires
            async_stats_wf(old(self)@),
            accounted_total(old(self)@) + 1 <= u32::MAX,
            accounted_latency(old(self)@) <= u64::MAX,
        ensures
            async_stats_wf(final(self)@),
            accounted_total(final(self)@) == accounted_total(old(self)@) + 1,
            accounted_failed(final(self)@) == accounted_failed(old(self)@) + 1,
            accounted_latency(final(self)@) == accounted_latency(old(self)@),
            final(self)@.total >= old(self)@.total,
    {
        self.batch_count = self.batch_count + 1;
        self.batch_failed = self.batch_failed + 1;
        if self.batch_count >= FLUSH_THRESHOLD {
            self.commit_batch();
        }
    }

    /// Commit whatever is still batched, as happens when the event stream
    /// ends. Afterwards the committed totals account for every counted
    /// event.
    pub fn drain(&mut self)
        requires
            async_stats_wf(old(self)@),
            accounted_total(old(self)@) <= u32::MAX,
            accounted_latency(old(self)@) <= u64::MAX,
        ensures
            async_stats_wf(final(self)@),
            final(self)@.total == accounted_total(old(self)@),
            final(self)@.failed == accounted_failed(old(self)@),
            final(self)@.total_latency == accounted_latency(old(self)@),
            accounted_total(final(self)@) == accounted_total(old(self)@),
            accounted_failed(final(self)@) == accounted_failed(old(self)@),
            accounted_latency(final(self)@) == accounted_latency(old(self)@),
    {
        self.commit_batch();
    }

    /// Read the committed totals into a result record: actual success and
    /// failure counts, with the latency averaged over the successes alone.
    /// The event stream carries no error taxonomy, so every failure is
    /// reported under the catch-all class.
    pub fn get_results(&self, elapsed_ms: u64) -> (r: LoadTestResult)
        requires
            self@.failed <= self@.total,
        ensures
            r.total_requests == self@.total,
            r.successful_requests == self@.total - self@.failed,
            r.failed_requests == self@.failed,
            r.requests_per_second_milli == rps_milli_spec(self@.total, elapsed_ms as int),
            r.average_latency == average_latency_spec(
                self@.total_latency,
                self@.total - self@.failed,
            ),
            r.successful_requests == 0 ==> r.average_latency == 0,
            r.error_stats.connection_errors == 0,
            r.error_stats.timeout_errors == 0,
            r.error_stats.http_errors == 0,
            r.error_stats.other_errors == self@.failed,
            r.failed_requests == r.error_stats.connection_errors + r.error_stats.timeout_errors
                + r.error_stats.http_errors + r.error_stats.other_errors,
            r.total_requests == r.successful_requests + r.failed_requests,
    {
        let successful_requests = self.total_requests - self.failed_requests;

        let requests_per_second_milli: u64 = if elapsed_ms > 0 {
            proof {
                assert((self.total_requests as int) * 1000000 <= 0xFFFF_FFFFint * 1000000)
                    by (nonlinear_arith)
                    requires self.total_requests as int <= 0xFFFF_FFFFint;
            }
            (self.total_requests as u64) * 1000000 / elapsed_ms
        } else {
            0
        };

        let average_latency: u64 = if successful_requests > 0 {
            self.total_latency / (successful_requests as u64)
        } else {
            0
        };

        LoadTestResult {
            total_requests: self.total_requests,
            successful_requests,
            failed_requests: self.failed_requests,
            requests_per_second_milli,
            average_latency,
            error_stats: ErrorStats {
                connection_errors: 0,
                timeout_errors: 0,
                http_errors: 0,
                other_errors: self.failed_requests,
            },
        }
    }
}

} // verus!
