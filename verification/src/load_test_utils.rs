//! Run-level helpers: configuration defaults, the shared HTTP client
//! provider, and the reporter that turns final counters into a result record.
use vstd::prelude::*;
use vstd::arithmetic::div_mod::{lemma_div_non_zero, lemma_div_of0, lemma_div_pos_is_pos};
use crate::load_test::{average_latency_spec, stat_wf, ErrorStats, LoadTestResult, TestStatistics};

verus! {

/// Default number of concurrent workers.
pub fn default_concurrency() -> (n: usize)
    ensures
        n == 10,
{
    10
}

/// Default run duration in seconds.
pub fn default_duration() -> (secs: u64)
    ensures
        secs == 10,
{
    10
}

/// Idle connections kept per host by the shared client's pool.
pub const POOL_MAX_IDLE_PER_HOST: usize = 500;

/// Connection-establishment timeout of the shared client, in seconds.
pub const CONNECT_TIMEOUT_SECS: u64 = 10;

/// Per-request timeout of the shared client, in seconds.
pub const REQUEST_TIMEOUT_SECS: u64 = 30;

/// The one engine-level fault of a run: the shared HTTP client could not be
/// constructed. Carries the underlying error's display text.
pub struct HttpClientError {
    pub message: String,
}

#[verifier::external_type_specification]
#[verifier::external_body]
pub struct ExClient(reqwest::Client);

/// Relies on reqwest::ClientBuilder: `build` constructs a connection-pooled
/// HTTP client configured with the given idle-pool size and timeouts, and
/// fails only when the client backend cannot be initialised; the error is
/// handed back as its display text.
#[verifier::external_body]
fn build_pooled_client(
    pool_max_idle: usize,
    connect_timeout_secs: u64,
    request_timeout_secs: u64,
) -> (r: Result<reqwest::Client, String>) {
    reqwest::Client::builder()
        .pool_max_idle_per_host(pool_max_idle)
        .connect_timeout(core::time::Duration::from_secs(connect_timeout_secs))
        .timeout(core::time::Duration::from_secs(request_timeout_secs))
        .build()
        .map_err(|e| e.to_string())
}

/// Construct the HTTP client shared by every worker of a run, tuned for many
/// concurrent short-lived requests. A failure here is a startup precondition
/// failure: it is surfaced to the caller and no worker is started.
pub fn create_http_client() -> (r: Result<reqwest::Client, HttpClientError>) {
    match build_pooled_client(POOL_MAX_IDLE_PER_HOST, CONNECT_TIMEOUT_SECS, REQUEST_TIMEOUT_SECS) {
        Ok(client) => Ok(client),
        Err(message) => Err(HttpClientError { message }),
    }
}

/// Throughput in thousandths of a request per second: the request count
/// divided by the elapsed time, as an exact fixed-point quotient; zero when
/// no time has elapsed.
pub open spec fn rps_milli_spec(total: int, elapsed_ms: int) -> int {
    if elapsed_ms <= 0 {
        0
    } else {
        total * 1000000 / elapsed_ms
    }
}

/// Throughput is never negative, whatever was counted in however much time.
pub proof fn lemma_rps_nonneg(total: int, elapsed_ms: int)
    requires
        total >= 0,
        elapsed_ms >= 0,
    ensures
        rps_milli_spec(total, elapsed_ms) >= 0,
{
    if elapsed_ms > 0 {
        assert(total * 1000000 >= 0) by (nonlinear_arith)
            requires total >= 0;
        lemma_div_pos_is_pos(total * 1000000, elapsed_ms);
    }
}

/// Throughput is zero exactly when no request was counted or no time
/// elapsed — granted that the true rate is at least one thousandth of a
/// request per second, below which the fixed-point value rounds down to
/// zero.
pub proof fn lemma_rps_zero_iff(total: int, elapsed_ms: int)
    requires
        total >= 0,
        elapsed_ms >= 0,
        total == 0 || elapsed_ms <= total * 1000000,
    ensures
        rps_milli_spec(total, elapsed_ms) >= 0,
        rps_milli_spec(total, elapsed_ms) == 0 <==> (total == 0 || elapsed_ms == 0),
{
    if elapsed_ms > 0 {
        if total == 0 {
            lemma_div_of0(elapsed_ms);
        } else {
            lemma_div_pos_is_pos(total * 1000000, elapsed_ms);
            lemma_div_non_zero(total * 1000000, elapsed_ms);
        }
    }
}

/// Compute the final result record from the post-join statistics counters and
/// the elapsed wall-clock time of the run.
pub fn generate_test_result(stats: &TestStatistics, elapsed_ms: u64) -> (r: LoadTestResult)
    requires
        stats@.successful + stats@.failed <= u32::MAX,
    ensures
        r.total_requests == stats@.successful + stats@.failed,
        r.successful_requests == stats@.successful,
        r.failed_requests == stats@.failed,
        r.requests_per_second_milli == rps_milli_spec(
            stats@.successful + stats@.failed,
            elapsed_ms as int,
        ),
        r.average_latency == average_latency_spec(stats@.total_latency, stats@.successful),
        r.successful_requests == 0 ==> r.average_latency == 0,
        r.error_stats.connection_errors == stats@.connection_errors,
        r.error_stats.timeout_errors == stats@.timeout_errors,
        r.error_stats.http_errors == stats@.http_errors,
        r.error_stats.other_errors == stats@.other_errors,
        stat_wf(stats@) ==> r.total_requests == r.successful_requests + r.failed_requests
            && r.failed_requests == r.error_stats.connection_errors
            + r.error_stats.timeout_errors + r.error_stats.http_errors
            + r.error_stats.other_errors,
{
    let total_requests = stats.successful + stats.failed;

    let requests_per_second_milli: u64 = if elapsed_ms > 0 {
        proof {
            assert((total_requests as int) * 1000000 <= 0xFFFF_FFFFint * 1000000)
                by (nonlinear_arith)
                requires total_requests as int <= 0xFFFF_FFFFint;
        }
        (total_requests as u64) * 1000000 / elapsed_ms
    } else {
        0
    };

    let average_latency: u64 = if stats.successful > 0 {
        stats.total_latency / (stats.successful as u64)
    } else {
        0
    };

    LoadTestResult {
        total_requests,
        successful_requests: stats.successful,
        failed_requests: stats.failed,
        requests_per_second_milli,
        average_latency,
        error_stats: ErrorStats {
            connection_errors: stats.connection_errors,
            timeout_errors: stats.timeout_errors,
            http_errors: stats.http_errors,
            other_errors: stats.other_errors,
        },
    }
}

} // verus!
