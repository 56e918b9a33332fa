//! Scenario tests: fixed outcome streams driven through the engine's
//! aggregation and reporting, mirroring characteristic target behaviours.
use connex::load_test::{
    classify_batch, classify_transport_error, default_batch_size, default_duration_seconds,
    initialize_statistics, outcome_of_response, replay_outcomes, status_is_success, Config,
    ErrorClass, Outcome, RequestResult,
};
use connex::load_test_utils::{
    create_http_client, default_concurrency, default_duration, generate_test_result,
};

#[test]
fn steady_success_run() {
    // One worker, one second, one request at a time against an always-200
    // target with a fixed 10 ms latency: about a hundred successes, no
    // failure, a 10 ms average.
    let mut stats = initialize_statistics();
    let outcomes = vec![Outcome::Success(10); 100];
    replay_outcomes(&mut stats, &outcomes);
    let r = generate_test_result(&stats, 1000);
    assert_eq!(r.total_requests, 100);
    assert_eq!(r.successful_requests, 100);
    assert_eq!(r.failed_requests, 0);
    assert_eq!(r.average_latency, 10);
    // 100 requests over one second: 100 requests per second.
    assert_eq!(r.requests_per_second_milli, 100_000);
}

#[test]
fn unreachable_target_counts_failed_throughput() {
    // Connection refused for every attempt: all failures are
    // connection-class, and the failed attempts still show as throughput.
    let mut stats = initialize_statistics();
    let outcomes = vec![Outcome::Failure(ErrorClass::Connection); 40];
    replay_outcomes(&mut stats, &outcomes);
    let r = generate_test_result(&stats, 2000);
    assert_eq!(r.successful_requests, 0);
    assert_eq!(r.failed_requests, r.total_requests);
    assert_eq!(r.error_stats.connection_errors, r.total_requests);
    assert_eq!(r.error_stats.timeout_errors, 0);
    assert_eq!(r.error_stats.http_errors, 0);
    assert_eq!(r.error_stats.other_errors, 0);
    assert!(r.requests_per_second_milli > 0);
    assert_eq!(r.average_latency, 0);
}

#[test]
fn http_500_target_counts_http_errors_only() {
    let mut stats = initialize_statistics();
    let results = vec![RequestResult::Response(500); 30];
    let outcomes = classify_batch(&results, 5);
    replay_outcomes(&mut stats, &outcomes);
    let r = generate_test_result(&stats, 1000);
    assert_eq!(r.failed_requests, r.total_requests);
    assert_eq!(r.error_stats.http_errors, r.total_requests);
    assert_eq!(r.error_stats.connection_errors, 0);
    assert_eq!(r.error_stats.timeout_errors, 0);
    assert_eq!(r.error_stats.other_errors, 0);
}

#[test]
fn zero_elapsed_time_reports_zero_throughput() {
    let mut stats = initialize_statistics();
    replay_outcomes(&mut stats, &vec![Outcome::Success(1)]);
    let r = generate_test_result(&stats, 0);
    assert_eq!(r.requests_per_second_milli, 0);
}

#[test]
fn empty_run_reports_zeroes() {
    let stats = initialize_statistics();
    let r = generate_test_result(&stats, 5000);
    assert_eq!(r.total_requests, 0);
    assert_eq!(r.requests_per_second_milli, 0);
    assert_eq!(r.average_latency, 0);
}

#[test]
fn classification_order_is_connection_then_timeout() {
    assert_eq!(classify_transport_error(true, true), ErrorClass::Connection);
    assert_eq!(classify_transport_error(true, false), ErrorClass::Connection);
    assert_eq!(classify_transport_error(false, true), ErrorClass::Timeout);
    assert_eq!(classify_transport_error(false, false), ErrorClass::Other);
}

#[test]
fn success_statuses_are_the_2xx_range() {
    assert!(!status_is_success(199));
    assert!(status_is_success(200));
    assert!(status_is_success(204));
    assert!(status_is_success(299));
    assert!(!status_is_success(300));
    assert!(!status_is_success(404));
    assert_eq!(outcome_of_response(204, 3), Outcome::Success(3));
    assert_eq!(outcome_of_response(301, 3), Outcome::Failure(ErrorClass::Http));
}

#[test]
fn documented_defaults() {
    assert_eq!(default_concurrency(), 10);
    assert_eq!(default_duration(), 10);
    assert_eq!(default_duration_seconds(), 10);
    assert_eq!(default_batch_size(), 1);
    let config = Config {
        url: String::from("http://localhost:3000"),
        concurrency: default_concurrency(),
        duration: default_duration_seconds(),
        batch_size: default_batch_size(),
    };
    assert_eq!(config.concurrency, 10);
    assert_eq!(config.duration, 10);
}

#[test]
fn http_client_is_constructed() {
    // The pooled client builds without touching the network; a failure here
    // would be the run's one engine-level startup fault.
    assert!(create_http_client().is_ok());
}
