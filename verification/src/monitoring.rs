//! Live monitoring of a run: per-outcome counters beside a latency
//! distribution, sampled on demand into point-in-time snapshots for an
//! observer. Every successful request stores one latency sample, quantized
//! within the histogram's resolution.
use vstd::prelude::*;
use vstd::multiset::Multiset;
use crate::histogram::{
    histogram_entries, histogram_record, histogram_sigfigs, lemma_canonical_of_wf,
    lemma_pairs_multiset_len, new_histogram, histogram_contents, percentile_of,
    value_at_percentile, LatencyHistogram,
};
use crate::load_test::{
    average_latency_spec, lemma_totals_prefix_le, lemma_totals_push, lemma_totals_wf, totals_of,
    ErrorClass, Outcome,
};
use crate::load_test_utils::rps_milli_spec;

verus! {

/// Latency distribution of successful requests at snapshot time, in
/// milliseconds, by nearest rank; zero while nothing was recorded.
#[derive(Clone, Copy, PartialEq, Eq, Structural, Debug)]
pub struct LatencyPercentiles {
    pub p50: u64,
    pub p90: u64,
    pub p95: u64,
    pub p99: u64,
}

/// Host-level gauges sampled at snapshot time, independent of the run's own
/// traffic. Usage ratios are carried in thousandths of a percent.
#[derive(Clone, Copy, PartialEq, Eq, Structural, Debug)]
pub struct SystemMetrics {
    pub cpu_usage_milli: u64,
    pub memory_usage_milli: u64,
    pub network_io: u64,
}

/// One point-in-time snapshot of a running load test, delivered to the
/// observer. Throughput is in thousandths of a request per second.
#[derive(Clone, Copy, PartialEq, Eq, Structural, Debug)]
pub struct RealTimeMetrics {
    pub rps_milli: u64,
    pub total_requests: u32,
    pub successful_requests: u32,
    pub failed_requests: u32,
    pub average_latency: u64,
    pub latency_percentiles: LatencyPercentiles,
    pub system_metrics: SystemMetrics,
}

/// The mathematical state of a monitor: its counters and the multiset of
/// latency samples its histogram stores.
pub ghost struct MonitorModel {
    pub total: int,
    pub successful: int,
    pub failed: int,
    pub total_latency: int,
    pub samples: Multiset<u64>,
    pub sigfigs: int,
}

/// A monitor state is well formed when the total splits into successes and
/// failures, the histogram holds at most one sample per success, and the
/// histogram keeps this library's resolution.
pub open spec fn monitor_wf(m: MonitorModel) -> bool {
    &&& 0 <= m.successful
    &&& 0 <= m.failed
    &&& 0 <= m.total_latency
    &&& m.total == m.successful + m.failed
    &&& m.total <= u32::MAX
    &&& m.samples.len() <= m.successful
    &&& m.sigfigs == HISTOGRAM_SIGFIGS as int
}

/// How recording one outcome changes a monitor's state: counters advance
/// deterministically, and a success stores exactly one latency sample within
/// the histogram's resolution of the observed latency — no smaller, and
/// larger by at most one part in a thousand.
pub open spec fn monitor_step(pre: MonitorModel, o: Outcome, post: MonitorModel) -> bool {
    match o {
        Outcome::Success(latency_ms) => {
            &&& post.total == pre.total + 1
            &&& post.successful == pre.successful + 1
            &&& post.failed == pre.failed
            &&& post.total_latency == pre.total_latency + latency_ms
            &&& post.sigfigs == pre.sigfigs
            &&& exists|q: u64|
                latency_ms <= q <= latency_ms + latency_ms / 1000 + 1 && post.samples
                    == pre.samples.insert(q)
        },
        Outcome::Failure(_) => {
            &&& post.total == pre.total + 1
            &&& post.successful == pre.successful
            &&& post.failed == pre.failed + 1
            &&& post.total_latency == pre.total_latency
            &&& post.sigfigs == pre.sigfigs
            &&& post.samples == pre.samples
        },
    }
}

/// A monitor run: the trace lists the monitor's state before and after each
/// recorded outcome, every state reached from the one before it by recording
/// the outcome between them.
pub open spec fn monitor_trace(trace: Seq<MonitorModel>, outcomes: Seq<Outcome>) -> bool {
    &&& trace.len() == outcomes.len() + 1
    &&& forall|i: int|
        0 <= i < outcomes.len() ==> monitor_step(trace[i], #[trigger] outcomes[i], trace[i + 1])
}

/// Within one run the monitor's counters never decrease: whatever outcomes
/// are recorded between two snapshots, the later snapshot shows at least as
/// many total, successful and failed requests as the earlier one.
pub proof fn lemma_monitor_counters_monotonic(
    trace: Seq<MonitorModel>,
    outcomes: Seq<Outcome>,
    i: int,
    j: int,
)
    requires
        monitor_trace(trace, outcomes),
        0 <= i <= j < trace.len(),
    ensures
        trace[j].total >= trace[i].total,
        trace[j].successful >= trace[i].successful,
        trace[j].failed >= trace[i].failed,
        trace[j].total_latency >= trace[i].total_latency,
    decreases j - i,
{
    if i < j {
        lemma_monitor_counters_monotonic(trace, outcomes, i, j - 1);
        assert(monitor_step(trace[j - 1], outcomes[j - 1], trace[j]));
    }
}

/// The monitor of one run: shared counters beside the latency histogram.
pub struct Monitor {
    pub latency_histogram: LatencyHistogram,
    pub total_requests: u32,
    pub successful_requests: u32,
    pub failed_requests: u32,
    pub total_latency: u64,
}

impl View for Monitor {
    type V = MonitorModel;

    open spec fn view(&self) -> MonitorModel {
        MonitorModel {
            total: self.total_requests as int,
            successful: self.successful_requests as int,
            failed: self.failed_requests as int,
            total_latency: self.total_latency as int,
            samples: histogram_contents(self.latency_histogram),
            sigfigs: histogram_sigfigs(self.latency_histogram) as int,
        }
    }
}

/// The number of significant decimal figures the latency histogram keeps.
pub const HISTOGRAM_SIGFIGS: u8 = 3;

impl Monitor {
    /// A fresh monitor: zero counters and an empty histogram.
    pub fn new() -> (m: Monitor)
        ensures
            m@ == (MonitorModel {
                total: 0,
                successful: 0,
                failed: 0,
                total_latency: 0,
                samples: Multiset::empty(),
                sigfigs: HISTOGRAM_SIGFIGS as int,
            }),
            monitor_wf(m@),
    {
        let histogram = match new_histogram(HISTOGRAM_SIGFIGS) {
            Some(h) => h,
            None => vstd::pervasive::unreached(),
        };
        Monitor {
            latency_histogram: histogram,
            total_requests: 0,
            successful_requests: 0,
            failed_requests: 0,
            total_latency: 0,
        }
    }

    /// Record one successful request and its latency: the counters advance
    /// and the histogram stores exactly one sample, quantized within its
    /// resolution of the observed latency.
    pub fn record_success(&mut self, latency_ms: u64)
        requires
            monitor_wf(old(self)@),
            old(self)@.total < u32::MAX,
            old(self)@.total_latency + latency_ms <= u64::MAX,
        ensures
            monitor_wf(final(self)@),
            monitor_step(old(self)@, Outcome::Success(latency_ms), final(self)@),
            final(self)@.total == old(self)@.total + 1,
            final(self)@.successful == old(self)@.successful + 1,
            final(self)@.failed == old(self)@.failed,
            final(self)@.total_latency == old(self)@.total_latency + latency_ms,
    {
        proof {
            broadcast use vstd::multiset::group_multiset_properties;
            broadcast use vstd::multiset::group_multiset_axioms;

        }
        self.total_requests = self.total_requests + 1;
        self.successful_requests = self.successful_requests + 1;
        self.total_latency = self.total_latency + latency_ms;
        histogram_record(&mut self.latency_histogram, latency_ms);
    }

    /// Record one failed request: only the counters advance.
    pub fn record_failure(&mut self)
        requires
            monitor_wf(old(self)@),
            old(self)@.total < u32::MAX,
        ensures
            monitor_wf(final(self)@),
            forall|class: ErrorClass|
                #[trigger] monitor_step(old(self)@, Outcome::Failure(class), final(self)@),
            final(self)@.total == old(self)@.total + 1,
            final(self)@.successful == old(self)@.successful,
            final(self)@.failed == old(self)@.failed + 1,
            final(self)@.total_latency == old(self)@.total_latency,
            final(self)@.samples == old(self)@.samples,
    {
        self.total_requests = self.total_requests + 1;
        self.failed_requests = self.failed_requests + 1;
    }

    /// Record a whole batch of classified outcomes in one call, so that the
    /// shell can take the monitor once per batch instead of once per outcome
    /// and keep the statistics path off a per-request lock. The counters grow
    /// by exactly the batch's totals.
    pub fn record_outcomes(&mut self, outcomes: &Vec<Outcome>)
        requires
            monitor_wf(old(self)@),
            old(self)@.total + outcomes@.len() <= u32::MAX,
            old(self)@.total_latency + totals_of(outcomes@).total_latency <= u64::MAX,
        ensures
            monitor_wf(final(self)@),
            exists|trace: Seq<MonitorModel>|
                monitor_trace(trace, outcomes@) && trace.first() == old(self)@ && trace.last()
                    == final(self)@,
            final(self)@.total == old(self)@.total + outcomes@.len(),
            final(self)@.successful == old(self)@.successful + totals_of(outcomes@).successful,
            final(self)@.failed == old(self)@.failed + totals_of(outcomes@).failed,
            final(self)@.total_latency == old(self)@.total_latency + totals_of(
                outcomes@,
            ).total_latency,
    {
        let ghost whole = outcomes@;
        let ghost pre = self@;
        let ghost mut trace: Seq<MonitorModel> = seq![pre];
        let n = outcomes.len();
        let mut i: usize = 0;
        while i < n
            invariant
                0 <= i <= n,
                n == whole.len(),
                outcomes@ == whole,
                monitor_wf(self@),
                trace.len() == i + 1,
                trace.first() == pre,
                trace.last() == self@,
                monitor_trace(trace, whole.take(i as int)),
                self@.total == pre.total + i,
                self@.successful == pre.successful + totals_of(whole.take(i as int)).successful,
                self@.failed == pre.failed + totals_of(whole.take(i as int)).failed,
                self@.total_latency == pre.total_latency + totals_of(
                    whole.take(i as int),
                ).total_latency,
                pre.total + whole.len() <= u32::MAX,
                pre.total_latency + totals_of(whole).total_latency <= u64::MAX,
            decreases n - i,
        {
            let o = outcomes[i];
            let ghost prev_state = self@;
            let ghost prev_trace = trace;
            proof {
                assert(whole.take(i as int + 1) =~= whole.take(i as int).push(whole[i as int]));
                lemma_totals_push(whole.take(i as int), o);
                lemma_totals_prefix_le(whole, i as int + 1);
                lemma_totals_wf(whole.take(i as int));
                lemma_totals_wf(whole.take(i as int + 1));
            }
            match o {
                Outcome::Success(latency_ms) => self.record_success(latency_ms),
                Outcome::Failure(_) => self.record_failure(),
            }
            proof {
                trace = trace.push(self@);
                assert(monitor_step(prev_state, o, self@));
                assert forall|k: int|
                    0 <= k < whole.take(i as int + 1).len() implies monitor_step(
                    trace[k],
                    #[trigger] whole.take(i as int + 1)[k],
                    trace[k + 1],
                ) by {
                    if k < i as int {
                        assert(trace[k] == prev_trace[k]);
                        assert(trace[k + 1] == prev_trace[k + 1]);
                        assert(monitor_step(
                            prev_trace[k],
                            whole.take(i as int)[k],
                            prev_trace[k + 1],
                        ));
                    } else {
                        assert(trace[k] == prev_trace[i as int]);
                        assert(trace[k + 1] == self@);
                    }
                }
            }
            i = i + 1;
        }
        proof {
            assert(whole.take(n as int) =~= whole);
            lemma_totals_wf(whole);
            assert(monitor_trace(trace, outcomes@) && trace.first() == pre && trace.last()
                == self@);
        }
    }

    /// Produce one point-in-time snapshot from the counters and the
    /// histogram, given the elapsed wall-clock time of the run so far. Host
    /// gauges are not sampled here and are reported as zero.
    pub fn collect_metrics(&self, elapsed_ms: u64) -> (m: RealTimeMetrics)
        requires
            monitor_wf(self@),
        ensures
            m.total_requests == self@.total,
            m.successful_requests == self@.successful,
            m.failed_requests == self@.failed,
            m.rps_milli == rps_milli_spec(self@.total, elapsed_ms as int),
            m.average_latency == average_latency_spec(self@.total_latency, self@.successful),
            m.successful_requests == 0 ==> m.average_latency == 0,
            m.latency_percentiles.p50 == percentile_of(self@.samples, 50),
            m.latency_percentiles.p90 == percentile_of(self@.samples, 90),
            m.latency_percentiles.p95 == percentile_of(self@.samples, 95),
            m.latency_percentiles.p99 == percentile_of(self@.samples, 99),
            m.system_metrics == (SystemMetrics {
                cpu_usage_milli: 0,
                memory_usage_milli: 0,
                network_io: 0,
            }),
    {
        let rps_milli: u64 = if elapsed_ms > 0 {
            proof {
                assert((self.total_requests as int) * 1000000 <= 0xFFFF_FFFFint * 1000000)
                    by (nonlinear_arith)
                    requires self.total_requests as int <= 0xFFFF_FFFFint;
            }
            (self.total_requests as u64) * 1000000 / elapsed_ms
        } else {
            0
        };

        let average_latency: u64 = if self.successful_requests > 0 {
            self.total_latency / (self.successful_requests as u64)
        } else {
            0
        };

        let entries = histogram_entries(&self.latency_histogram);
        proof {
            lemma_canonical_of_wf(entries@);
            lemma_pairs_multiset_len(entries@);
        }
        let latency_percentiles = LatencyPercentiles {
            p50: value_at_percentile(&entries, 50),
            p90: value_at_percentile(&entries, 90),
            p95: value_at_percentile(&entries, 95),
            p99: value_at_percentile(&entries, 99),
        };

        RealTimeMetrics {
            rps_milli,
            total_requests: self.total_requests,
            successful_requests: self.successful_requests,
            failed_requests: self.failed_requests,
            average_latency,
            latency_percentiles,
            system_metrics: SystemMetrics {
                cpu_usage_milli: 0,
                memory_usage_milli: 0,
                network_io: 0,
            },
        }
    }
}

} // verus!
