//! Request and resource instrumentation: what one request, and one resource sample,
//! write into the registry.
use vstd::prelude::*;
use vstd::string::*;

use crate::labels::canonical;
use crate::registry::{Fixed, Label, MetricRegistry, MetricsError, RegistryModel, Series, SeriesId};
use crate::system::SystemMetrics;
use crate::text::{digits, push_digits};

verus! {

/// The `service` label carried by every series.
pub const SERVICE_NAME: &'static str = "rust-open-telemetry";

pub const REQUESTS_TOTAL: &'static str = "http_requests_total";

pub const REQUEST_DURATION: &'static str = "http_requests_duration_seconds";

pub const CPU_USAGE: &'static str = "system_cpu_usage";

pub const TOTAL_MEMORY: &'static str = "system_total_memory";

pub const USED_MEMORY: &'static str = "system_used_memory";

pub const TOTAL_SWAP: &'static str = "system_total_swap";

pub const USED_SWAP: &'static str = "system_used_swap";

pub const TOTAL_DISKS_SPACE: &'static str = "system_total_disks_space";

pub const USED_DISKS_USAGE: &'static str = "system_used_disks_usage";

/// Request-latency bucket bounds in microseconds: 5 ms to 10 s.
pub open spec fn duration_bounds() -> Seq<u64> {
    seq![5000, 10000, 25000, 50000, 100000, 250000, 500000, 1000000, 2500000, 5000000, 10000000]
}

/// The outcome of one request, as the interceptor measured it.
pub struct RequestObservation {
    pub method: String,
    /// The matched route template, or the raw path where no route matched
    pub route: String,
    pub status: u16,
    /// Latency in microseconds
    pub duration_micros: u64,
}

/// The labels of both request series: method, route, service and status.
pub open spec fn request_labels_of(obs: RequestObservation) -> Seq<(Seq<char>, Seq<char>)> {
    seq![
        ("method"@, obs.method@),
        ("route"@, obs.route@),
        ("service"@, SERVICE_NAME@),
        ("status"@, digits(obs.status as nat)),
    ]
}

/// The series of `obs` under the metric `name`, keyed as the registry keys it.
pub open spec fn request_series(name: Seq<char>, obs: RequestObservation) -> SeriesId {
    canonical(SeriesId { name, labels: request_labels_of(obs) })
}

/// What one request writes: one more on its counter, its latency on its histogram.
pub open spec fn after_request(m: RegistryModel, obs: RequestObservation) -> RegistryModel {
    m.with_increment(request_series(REQUESTS_TOTAL@, obs)).with_observation(
        request_series(REQUEST_DURATION@, obs),
        obs.duration_micros,
    )
}

/// A gauge series of the service.
pub open spec fn service_series(name: Seq<char>) -> SeriesId {
    canonical(SeriesId { name, labels: seq![("service"@, SERVICE_NAME@)] })
}

/// What one resource sample writes: the seven gauges, each overwritten.
pub open spec fn after_sample(m: RegistryModel, s: crate::system::SnapshotModel) -> RegistryModel {
    m.with_gauge(service_series(CPU_USAGE@), Fixed { units: s.cpu_usage, scale: 3 })
        .with_gauge(service_series(TOTAL_MEMORY@), Fixed { units: s.total_memory, scale: 0 })
        .with_gauge(service_series(USED_MEMORY@), Fixed { units: s.used_memory, scale: 0 })
        .with_gauge(service_series(TOTAL_SWAP@), Fixed { units: s.total_swap, scale: 0 })
        .with_gauge(service_series(USED_SWAP@), Fixed { units: s.used_swap, scale: 0 })
        .with_gauge(service_series(TOTAL_DISKS_SPACE@), Fixed { units: s.total_disks_space, scale: 0 })
        .with_gauge(service_series(USED_DISKS_USAGE@), Fixed { units: s.used_disks_space, scale: 0 })
}

fn duration_buckets() -> (r: Vec<u64>)
    ensures
        r@ == duration_bounds(),
{
    let r = vec![5000, 10000, 25000, 50000, 100000, 250000, 500000, 1000000, 2500000, 5000000, 10000000];
    assert(r@ =~= duration_bounds());
    r
}

fn service_labels() -> (r: Vec<Label>)
    ensures
        r@.map_values(|l: Label| l@) == seq![("service"@, SERVICE_NAME@)],
{
    let r = vec![Label::new("service", SERVICE_NAME.to_owned())];
    assert(r@.map_values(|l: Label| l@) =~= seq![("service"@, SERVICE_NAME@)]);
    r
}

fn service_gauge(name: &str) -> (r: Series)
    ensures
        r@ == (SeriesId { name: name@, labels: seq![("service"@, SERVICE_NAME@)] }),
{
    Series { name: name.to_owned(), labels: service_labels() }
}

pub struct PrometheusMetric {}

impl PrometheusMetric {
    /// A fresh registry with the request-latency histogram's bounds registered.
    pub fn get_handle() -> (r: MetricRegistry)
        ensures
            r.wf(),
            r@.bucket_names == seq![REQUEST_DURATION@],
            r@.bucket_bounds == seq![duration_bounds()],
            r@.counter_ids.len() == 0,
            r@.histogram_ids.len() == 0,
            r@.gauge_ids.len() == 0,
    {
        let mut r = MetricRegistry::new();
        let ghost m = r@;
        let bounds = duration_buckets();
        proof {
            assert forall|i: int, j: int| 0 <= i < j < bounds@.len() implies bounds@[i] < bounds@[j] by {
                assert(bounds@ == duration_bounds());
            }
        }
        let registered = r.register_histogram(REQUEST_DURATION.to_owned(), bounds);
        proof {
            assert(registered is Ok);
            assert(m.with_bounds(REQUEST_DURATION@, duration_bounds()).bucket_names =~= seq![REQUEST_DURATION@]);
            assert(m.with_bounds(REQUEST_DURATION@, duration_bounds()).bucket_bounds =~= seq![duration_bounds()]);
        }
        r
    }

    /// The route label of a request: the matched route template when one matched,
    /// else the raw path.
    pub fn route_label(matched: Option<String>, raw_path: String) -> (r: String)
        ensures
            r@ == match matched {
                Some(t) => t@,
                None => raw_path@,
            },
    {
        match matched {
            Some(t) => t,
            None => raw_path,
        }
    }

    /// The labels of the request series of `obs`.
    pub fn request_labels(obs: &RequestObservation) -> (r: Vec<Label>)
        ensures
            r@.map_values(|l: Label| l@) == request_labels_of(*obs),
    {
        let mut status = String::new();
        push_digits(&mut status, obs.status as u64);
        let r = vec![
            Label::new("method", obs.method.clone()),
            Label::new("route", obs.route.clone()),
            Label::new("service", SERVICE_NAME.to_owned()),
            Label::new("status", status),
        ];
        assert(r@.map_values(|l: Label| l@) =~= request_labels_of(*obs));
        r
    }

    /// Records one request: its counter goes up by one and its latency goes into the
    /// latency histogram, both under the method, route, service and status labels.
    /// Where the latency histogram has no registered bounds nothing is recorded and
    /// the observation is refused whole.
    pub fn observe_request(reg: &mut MetricRegistry, obs: &RequestObservation) -> (r: Result<(), MetricsError>)
        requires
            old(reg).wf(),
        ensures
            final(reg).wf(),
            old(reg)@.is_registered(REQUEST_DURATION@) ==> r == Ok::<(), MetricsError>(())
                && final(reg)@ == after_request(old(reg)@, *obs),
            !old(reg)@.is_registered(REQUEST_DURATION@) ==> r == Err::<(), MetricsError>(
                MetricsError::UnregisteredHistogram,
            ) && final(reg)@ == old(reg)@,
    {
        if !reg.has_histogram(&REQUEST_DURATION.to_owned()) {
            return Err(MetricsError::UnregisteredHistogram);
        }
        let ghost m = reg@;
        let counter = Series { name: REQUESTS_TOTAL.to_owned(), labels: Self::request_labels(obs) };
        reg.increment_counter(counter);
        let histogram = Series { name: REQUEST_DURATION.to_owned(), labels: Self::request_labels(obs) };
        let recorded = reg.record_histogram(histogram, obs.duration_micros);
        proof {
            assert(m.with_increment(request_series(REQUESTS_TOTAL@, *obs)).bucket_names == m.bucket_names);
        }
        recorded
    }

    /// Writes a resource sample into the seven gauges of the service, overwriting
    /// what the previous sample wrote. CPU usage is published in percent, the rest in bytes.
    pub fn publish_system_metrics(reg: &mut MetricRegistry, m: &SystemMetrics)
        requires
            old(reg).wf(),
        ensures
            final(reg).wf(),
            final(reg)@ == after_sample(old(reg)@, m@),
    {
        m.check_bounds();
        reg.set_gauge(service_gauge(CPU_USAGE), m.cpu_gauge());
        reg.set_gauge(service_gauge(TOTAL_MEMORY), Fixed { units: m.total_memory(), scale: 0 });
        reg.set_gauge(service_gauge(USED_MEMORY), Fixed { units: m.used_memory(), scale: 0 });
        reg.set_gauge(service_gauge(TOTAL_SWAP), Fixed { units: m.total_swap(), scale: 0 });
        reg.set_gauge(service_gauge(USED_SWAP), Fixed { units: m.used_swap(), scale: 0 });
        reg.set_gauge(service_gauge(TOTAL_DISKS_SPACE), Fixed { units: m.total_disks_space(), scale: 0 });
        reg.set_gauge(service_gauge(USED_DISKS_USAGE), Fixed { units: m.used_disks_space(), scale: 0 });
    }
}

} // verus!
