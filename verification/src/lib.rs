//! A verified HTTP load-generation engine: request outcome classification,
//! low-contention statistics aggregation, latency percentile tracking, and
//! result reporting, with the network and timing edges kept outside.
pub mod histogram;
pub mod load_test_utils;
pub mod monitoring;
pub mod stats;
