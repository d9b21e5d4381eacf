use request_metrics::{Fixed, Label, MetricRegistry, MetricsError, PrometheusMetric, RequestObservation, Series};

fn request(method: &str, route: &str, status: u16, duration_micros: u64) -> RequestObservation {
    RequestObservation {
        method: method.to_string(),
        route: route.to_string(),
        status,
        duration_micros,
    }
}

fn request_series(name: &str, obs: &RequestObservation) -> Series {
    Series { name: name.to_string(), labels: PrometheusMetric::request_labels(obs) }
}

fn plain(name: &str) -> Series {
    Series { name: name.to_string(), labels: Vec::new() }
}

#[test]
fn n_requests_count_n() {
    let mut reg = PrometheusMetric::get_handle();
    let obs = request("GET", "/hello", 200, 1000);
    for _ in 0..25 {
        assert_eq!(PrometheusMetric::observe_request(&mut reg, &obs), Ok(()));
    }
    assert_eq!(reg.counter(&request_series("http_requests_total", &obs)), 25);
    assert_eq!(reg.histogram_totals(&request_series("http_requests_duration_seconds", &obs)), Some((25000, 25)));
}

#[test]
fn interleaved_requests_lose_no_count() {
    let mut reg = PrometheusMetric::get_handle();
    let a = request("GET", "/hello", 200, 3000);
    let b = request("GET", "/error", 500, 1_000_000);
    let c = request("POST", "/hello", 200, 7000);
    for i in 0..300u32 {
        let obs = match i % 5 {
            0 | 3 => &a,
            1 => &b,
            _ => &c,
        };
        PrometheusMetric::observe_request(&mut reg, obs).unwrap();
    }
    assert_eq!(reg.counter(&request_series("http_requests_total", &a)), 120);
    assert_eq!(reg.counter(&request_series("http_requests_total", &b)), 60);
    assert_eq!(reg.counter(&request_series("http_requests_total", &c)), 120);
}

#[test]
fn observation_fills_buckets_at_or_above_it() {
    let mut reg = MetricRegistry::new();
    reg.register_histogram("latency".to_string(), vec![10, 20, 30]).unwrap();
    reg.record_histogram(plain("latency"), 20).unwrap();
    assert_eq!(reg.bucket_count(&plain("latency"), 0), Some(0));
    assert_eq!(reg.bucket_count(&plain("latency"), 1), Some(1));
    assert_eq!(reg.bucket_count(&plain("latency"), 2), Some(1));
    assert_eq!(reg.bucket_count(&plain("latency"), 3), None);
    reg.record_histogram(plain("latency"), 5).unwrap();
    reg.record_histogram(plain("latency"), 31).unwrap();
    assert_eq!(reg.bucket_count(&plain("latency"), 0), Some(1));
    assert_eq!(reg.bucket_count(&plain("latency"), 1), Some(2));
    assert_eq!(reg.bucket_count(&plain("latency"), 2), Some(2));
    assert_eq!(reg.histogram_totals(&plain("latency")), Some((56, 3)));
}

#[test]
fn one_hello_request_of_120_ms() {
    let mut reg = PrometheusMetric::get_handle();
    let obs = request("GET", "/hello", 200, 120_000);
    PrometheusMetric::observe_request(&mut reg, &obs).unwrap();
    assert_eq!(reg.counter(&request_series("http_requests_total", &obs)), 1);
    let h = request_series("http_requests_duration_seconds", &obs);
    // bounds: 5, 10, 25, 50, 100, 250 ms ...
    assert_eq!(reg.bucket_count(&h, 4), Some(0));
    assert_eq!(reg.bucket_count(&h, 5), Some(1));
    let text = reg.render();
    let labels = "method=\"GET\",route=\"/hello\",service=\"rust-open-telemetry\",status=\"200\"";
    assert!(text.contains(&format!("http_requests_total{{{labels}}} 1\n")));
    assert!(text.contains(&format!("http_requests_duration_seconds_bucket{{{labels},le=\"0.1\"}} 0\n")));
    assert!(text.contains(&format!("http_requests_duration_seconds_bucket{{{labels},le=\"0.25\"}} 1\n")));
    assert!(text.contains(&format!("http_requests_duration_seconds_sum{{{labels}}} 0.12\n")));
    assert!(text.contains(&format!("http_requests_duration_seconds_count{{{labels}}} 1\n")));
}

#[test]
fn render_twice_gives_same_text() {
    let mut reg = PrometheusMetric::get_handle();
    PrometheusMetric::observe_request(&mut reg, &request("GET", "/", 200, 4321)).unwrap();
    reg.set_gauge(plain("temperature"), Fixed { units: 2150, scale: 2 });
    let first = reg.render();
    let second = reg.render();
    assert_eq!(first, second);
    assert!(!first.is_empty());
}

#[test]
fn render_exact_text() {
    let mut reg = MetricRegistry::new();
    reg.register_histogram("d".to_string(), vec![5000, 1_000_000, 2_500_000]).unwrap();
    reg.increment_counter(Series {
        name: "c".to_string(),
        labels: vec![Label::new("k", "v".to_string())],
    });
    reg.increment_counter(Series {
        name: "c".to_string(),
        labels: vec![Label::new("k", "v".to_string())],
    });
    reg.increment_counter(plain("bare"));
    reg.record_histogram(plain("d"), 1_200_000).unwrap();
    reg.set_gauge(plain("g"), Fixed { units: 1234, scale: 2 });
    reg.set_gauge(plain("g"), Fixed { units: 50, scale: 0 });
    let expected = "c{k=\"v\"} 2\n\
                    bare 1\n\
                    d_bucket{le=\"0.005\"} 0\n\
                    d_bucket{le=\"1\"} 0\n\
                    d_bucket{le=\"2.5\"} 1\n\
                    d_bucket{le=\"+Inf\"} 1\n\
                    d_sum 1.2\n\
                    d_count 1\n\
                    g 50\n";
    assert_eq!(reg.render(), expected);
}

#[test]
fn empty_registry_renders_nothing() {
    assert_eq!(MetricRegistry::new().render(), "");
}

#[test]
fn label_values_are_escaped() {
    let mut reg = MetricRegistry::new();
    reg.increment_counter(Series {
        name: "c".to_string(),
        labels: vec![Label::new("a", "x\"y\\z\nw".to_string()), Label::new("b", "é".to_string())],
    });
    assert_eq!(reg.render(), "c{a=\"x\\\"y\\\\z\\nw\",b=\"é\"} 1\n");
}

#[test]
fn gauge_is_last_write_wins() {
    let mut reg = MetricRegistry::new();
    reg.set_gauge(plain("g"), Fixed { units: 7, scale: 0 });
    reg.set_gauge(plain("g"), Fixed { units: 3, scale: 0 });
    assert_eq!(reg.gauge(&plain("g")), Some(Fixed { units: 3, scale: 0 }));
    assert_eq!(reg.gauge(&plain("h")), None);
}

#[test]
fn histogram_bounds_must_increase() {
    let mut reg = MetricRegistry::new();
    assert_eq!(reg.register_histogram("h".to_string(), vec![1, 1]), Err(MetricsError::InvalidBuckets));
    assert_eq!(reg.register_histogram("h".to_string(), vec![2, 1]), Err(MetricsError::InvalidBuckets));
    assert_eq!(reg.record_histogram(plain("h"), 1), Err(MetricsError::UnregisteredHistogram));
}

#[test]
fn conflicting_registration_is_refused() {
    let mut reg = MetricRegistry::new();
    assert_eq!(reg.register_histogram("h".to_string(), vec![1, 2]), Ok(()));
    assert_eq!(reg.register_histogram("h".to_string(), vec![1, 2]), Ok(()));
    assert_eq!(reg.register_histogram("h".to_string(), vec![1, 3]), Err(MetricsError::ConflictingBuckets));
    reg.record_histogram(plain("h"), 3).unwrap();
    assert_eq!(reg.bucket_count(&plain("h"), 1), Some(0));
}

#[test]
fn unregistered_histogram_records_nothing() {
    let mut reg = MetricRegistry::new();
    let obs = request("GET", "/x", 404, 10);
    assert_eq!(PrometheusMetric::observe_request(&mut reg, &obs), Err(MetricsError::UnregisteredHistogram));
    assert_eq!(reg.counter(&request_series("http_requests_total", &obs)), 0);
    assert_eq!(reg.render(), "");
}

#[test]
fn route_label_prefers_matched_template() {
    assert_eq!(PrometheusMetric::route_label(Some("/metrics/{id}".to_string()), "/metrics/42".to_string()), "/metrics/{id}");
    assert_eq!(PrometheusMetric::route_label(None, "/nowhere".to_string()), "/nowhere");
}

#[test]
fn request_labels_in_key_order() {
    let labels = PrometheusMetric::request_labels(&request("PUT", "/a", 503, 0));
    let pairs: Vec<(String, String)> = labels.into_iter().map(|l| (l.key, l.value)).collect();
    assert_eq!(
        pairs,
        vec![
            ("method".to_string(), "PUT".to_string()),
            ("route".to_string(), "/a".to_string()),
            ("service".to_string(), "rust-open-telemetry".to_string()),
            ("status".to_string(), "503".to_string()),
        ]
    );
}

#[test]
fn counter_of_unseen_series_is_zero() {
    let reg = PrometheusMetric::get_handle();
    assert_eq!(reg.counter(&plain("http_requests_total")), 0);
    assert_eq!(reg.histogram_totals(&plain("http_requests_duration_seconds")), None);
}

#[test]
fn hello_greeting() {
    assert_eq!(request_metrics::get_hello("Fabien"), "Hello, World!");
}

#[test]
fn label_order_does_not_split_a_series() {
    let mut reg = MetricRegistry::new();
    let ab = || Series {
        name: "c".to_string(),
        labels: vec![Label::new("a", "1".to_string()), Label::new("b", "2".to_string())],
    };
    let ba = || Series {
        name: "c".to_string(),
        labels: vec![Label::new("b", "2".to_string()), Label::new("a", "1".to_string())],
    };
    reg.increment_counter(ba());
    reg.increment_counter(ab());
    assert_eq!(reg.counter(&ab()), 2);
    assert_eq!(reg.counter(&ba()), 2);
    assert_eq!(reg.render(), "c{a=\"1\",b=\"2\"} 2\n");
}

#[test]
fn labels_sorted_by_key_keep_order_of_equal_keys() {
    let mut reg = MetricRegistry::new();
    reg.set_gauge(
        Series {
            name: "g".to_string(),
            labels: vec![
                Label::new("zone", "z".to_string()),
                Label::new("k", "first".to_string()),
                Label::new("ab", "x".to_string()),
                Label::new("k", "second".to_string()),
                Label::new("a", "y".to_string()),
            ],
        },
        Fixed { units: 1, scale: 0 },
    );
    assert_eq!(reg.render(), "g{a=\"y\",ab=\"x\",k=\"first\",k=\"second\",zone=\"z\"} 1\n");
}
