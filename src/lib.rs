//! Request and host-resource metrics: a registry of counters, histograms and gauges
//! rendered in the scrape text format, what each request and each resource sample
//! writes into it, and the snapshot of host resources.
//!
//! The registry is this crate's own rather than the `metrics` facade with the
//! `metrics_exporter_prometheus` recorder: those record histogram observations and
//! gauge values as `f64`, while this registry holds integers (latencies in
//! microseconds, gauges as fixed-point decimals), so that what it holds and what it
//! renders are stated and proved.
use vstd::prelude::*;

pub mod exposition;
pub mod labels;
pub mod laws;
pub mod mount;
pub mod prometheus;
pub mod registry;
pub mod system;
pub mod text;

pub use prometheus::{PrometheusMetric, RequestObservation};
pub use registry::{Fixed, Label, MetricRegistry, MetricsError, Series};
pub use system::{DiskReading, SystemMetrics};

verus! {

/// The greeting of the `/hello` route.
pub fn get_hello(s: &str) -> (r: &'static str)
    ensures
        r@ == "Hello, World!"@,
{
    "Hello, World!"
}

} // verus!
