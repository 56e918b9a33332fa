//! Tests of the statistics aggregation path: worker-local accumulation,
//! batched flushing, and the final result record.
use connex::load_test::{
    classify_batch, initialize_statistics, replay_outcomes, ErrorClass, Outcome, RequestResult,
    WorkerCounters, FLUSH_THRESHOLD,
};
use connex::load_test_utils::generate_test_result;

#[test]
fn totals_split_into_successes_and_failures() {
    let mut stats = initialize_statistics();
    let outcomes = vec![
        Outcome::Success(10),
        Outcome::Success(20),
        Outcome::Failure(ErrorClass::Connection),
        Outcome::Failure(ErrorClass::Http),
        Outcome::Success(30),
    ];
    replay_outcomes(&mut stats, &outcomes);
    let r = generate_test_result(&stats, 1000);
    assert_eq!(r.total_requests, 5);
    assert_eq!(r.successful_requests, 3);
    assert_eq!(r.failed_requests, 2);
    assert_eq!(
        r.failed_requests,
        r.error_stats.connection_errors
            + r.error_stats.timeout_errors
            + r.error_stats.http_errors
            + r.error_stats.other_errors
    );
    assert_eq!(r.error_stats.connection_errors, 1);
    assert_eq!(r.error_stats.http_errors, 1);
    assert_eq!(r.average_latency, 20);
}

#[test]
fn flush_threshold_loses_nothing() {
    // More than two full batches plus a remainder: every outcome must be
    // committed by the threshold flushes and the final flush together.
    let mut stats = initialize_statistics();
    let mut outcomes = Vec::new();
    for i in 0..254u32 {
        if i % 2 == 0 {
            outcomes.push(Outcome::Success(8));
        } else {
            outcomes.push(Outcome::Failure(ErrorClass::Timeout));
        }
    }
    replay_outcomes(&mut stats, &outcomes);
    assert_eq!(stats.successful, 127);
    assert_eq!(stats.failed, 127);
    assert_eq!(stats.timeout_errors, 127);
    assert_eq!(stats.total_latency, 127 * 8);
}

#[test]
fn aggregation_is_order_independent() {
    // The same multiset of outcomes, in two different interleavings, yields
    // identical final totals.
    let a = vec![
        Outcome::Success(5),
        Outcome::Failure(ErrorClass::Other),
        Outcome::Success(15),
        Outcome::Failure(ErrorClass::Connection),
    ];
    let b = vec![
        Outcome::Failure(ErrorClass::Connection),
        Outcome::Success(15),
        Outcome::Failure(ErrorClass::Other),
        Outcome::Success(5),
    ];
    let mut stats_a = initialize_statistics();
    let mut stats_b = initialize_statistics();
    replay_outcomes(&mut stats_a, &a);
    replay_outcomes(&mut stats_b, &b);
    let ra = generate_test_result(&stats_a, 500);
    let rb = generate_test_result(&stats_b, 500);
    assert_eq!(ra, rb);
}

#[test]
fn replaying_twice_doubles_exactly() {
    // Replaying the same fixed sequence again adds exactly the same totals.
    let outcomes = vec![Outcome::Success(10), Outcome::Failure(ErrorClass::Http)];
    let mut stats = initialize_statistics();
    replay_outcomes(&mut stats, &outcomes);
    let first = (stats.successful, stats.failed, stats.total_latency);
    replay_outcomes(&mut stats, &outcomes);
    assert_eq!(
        (stats.successful, stats.failed, stats.total_latency),
        (first.0 * 2, first.1 * 2, first.2 * 2)
    );
}

#[test]
fn update_statistics_commits_and_resets() {
    let mut stats = initialize_statistics();
    let mut ls: u32 = 3;
    let mut lf: u32 = 2;
    let mut ll: u64 = 45;
    let mut lc: u32 = 1;
    let mut lt: u32 = 1;
    let mut lh: u32 = 0;
    let mut lo: u32 = 0;
    stats.update_statistics(&mut ls, &mut lf, &mut ll, &mut lc, &mut lt, &mut lh, &mut lo);
    assert_eq!(stats.successful, 3);
    assert_eq!(stats.failed, 2);
    assert_eq!(stats.total_latency, 45);
    assert_eq!(stats.connection_errors, 1);
    assert_eq!(stats.timeout_errors, 1);
    assert_eq!((ls, lf, ll, lc, lt, lh, lo), (0, 0, 0, 0, 0, 0, 0));
}

#[test]
fn worker_counters_flush_below_threshold() {
    let mut stats = initialize_statistics();
    let mut wc = WorkerCounters::new();
    for _ in 0..(FLUSH_THRESHOLD - 1) {
        wc.record_and_maybe_flush(&mut stats, Outcome::Success(1));
    }
    // Not at the threshold yet: nothing committed.
    assert_eq!(stats.successful, 0);
    assert_eq!(wc.pending(), FLUSH_THRESHOLD - 1);
    wc.record_and_maybe_flush(&mut stats, Outcome::Success(1));
    // The hundredth outcome triggers the commit.
    assert_eq!(stats.successful, FLUSH_THRESHOLD);
    assert_eq!(wc.pending(), 0);
}

#[test]
fn batch_members_are_classified_independently() {
    // One batch of five requests with one shared dispatch latency: every
    // member is classified and counted on its own.
    let results = vec![
        RequestResult::Response(200),
        RequestResult::Response(500),
        RequestResult::TransportError { is_connect: true, is_timeout: false },
        RequestResult::TransportError { is_connect: false, is_timeout: true },
        RequestResult::TransportError { is_connect: false, is_timeout: false },
    ];
    let outcomes = classify_batch(&results, 12);
    assert_eq!(outcomes.len(), 5);
    assert_eq!(outcomes[0], Outcome::Success(12));
    assert_eq!(outcomes[1], Outcome::Failure(ErrorClass::Http));
    assert_eq!(outcomes[2], Outcome::Failure(ErrorClass::Connection));
    assert_eq!(outcomes[3], Outcome::Failure(ErrorClass::Timeout));
    assert_eq!(outcomes[4], Outcome::Failure(ErrorClass::Other));

    let mut stats = initialize_statistics();
    replay_outcomes(&mut stats, &outcomes);
    assert_eq!(stats.successful, 1);
    assert_eq!(stats.failed, 4);
    assert_eq!(stats.connection_errors, 1);
    assert_eq!(stats.timeout_errors, 1);
    assert_eq!(stats.http_errors, 1);
    assert_eq!(stats.other_errors, 1);
}
