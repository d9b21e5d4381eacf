use request_metrics::{DiskReading, Fixed, MetricRegistry, PrometheusMetric, Series, SystemMetrics};

fn disk(mount_point: &str, total_space: u64, available_space: u64) -> DiskReading {
    DiskReading { mount_point: mount_point.to_string(), total_space, available_space }
}

fn service_gauge(name: &str) -> Series {
    Series {
        name: name.to_string(),
        labels: vec![request_metrics::Label::new("service", "rust-open-telemetry".to_string())],
    }
}

#[test]
fn used_amounts_are_clamped_to_totals() {
    let m = SystemMetrics::new(2000, 4000, 100, 250, 50, 10, &vec![disk("/", 1000, 1200)], &"/".to_string());
    assert_eq!(m.cpu_usage(), 30000);
    assert_eq!(m.total_memory(), 100);
    assert_eq!(m.used_memory(), 100);
    assert_eq!(m.total_swap(), 50);
    assert_eq!(m.used_swap(), 10);
    assert_eq!(m.total_disks_space(), 1000);
    assert_eq!(m.used_disks_space(), 0);
}

#[test]
fn cpu_readings_are_clamped_and_averaged() {
    let m = SystemMetrics::new(20000, 9001, 0, 0, 0, 0, &Vec::new(), &"/".to_string());
    assert_eq!(m.cpu_usage(), 95005);
}

#[test]
fn only_disks_at_the_mount_point_count() {
    let disks = vec![disk("/", 1000, 400), disk("/boot", 500, 100), disk("/", 300, 300)];
    let m = SystemMetrics::new(0, 0, 0, 0, 0, 0, &disks, &"/".to_string());
    assert_eq!(m.total_disks_space(), 1300);
    assert_eq!(m.used_disks_space(), 600);
}

#[test]
fn unmatched_mount_point_gives_zero_disk_gauges() {
    let disks = vec![disk("/", 1000, 400), disk("/boot", 500, 100)];
    let m = SystemMetrics::new(100, 100, 8, 4, 2, 1, &disks, &"/no/such/mount".to_string());
    assert_eq!(m.total_disks_space(), 0);
    assert_eq!(m.used_disks_space(), 0);
    let mut reg = PrometheusMetric::get_handle();
    PrometheusMetric::publish_system_metrics(&mut reg, &m);
    assert_eq!(reg.gauge(&service_gauge("system_total_disks_space")), Some(Fixed { units: 0, scale: 0 }));
    assert_eq!(reg.gauge(&service_gauge("system_used_disks_usage")), Some(Fixed { units: 0, scale: 0 }));
}

#[test]
fn sample_overwrites_the_seven_gauges() {
    let mut reg = MetricRegistry::new();
    let first = SystemMetrics::new(1000, 1000, 8000, 2000, 100, 50, &vec![disk("/", 900, 300)], &"/".to_string());
    PrometheusMetric::publish_system_metrics(&mut reg, &first);
    let second = SystemMetrics::new(1250, 1300, 8000, 3000, 100, 60, &vec![disk("/", 900, 200)], &"/".to_string());
    PrometheusMetric::publish_system_metrics(&mut reg, &second);
    assert_eq!(reg.gauge(&service_gauge("system_cpu_usage")), Some(Fixed { units: 12750, scale: 3 }));
    assert_eq!(reg.gauge(&service_gauge("system_used_memory")), Some(Fixed { units: 3000, scale: 0 }));
    assert_eq!(reg.gauge(&service_gauge("system_used_swap")), Some(Fixed { units: 60, scale: 0 }));
    assert_eq!(reg.gauge(&service_gauge("system_used_disks_usage")), Some(Fixed { units: 700, scale: 0 }));
    let expected = "system_cpu_usage{service=\"rust-open-telemetry\"} 12.75\n\
                    system_total_memory{service=\"rust-open-telemetry\"} 8000\n\
                    system_used_memory{service=\"rust-open-telemetry\"} 3000\n\
                    system_total_swap{service=\"rust-open-telemetry\"} 100\n\
                    system_used_swap{service=\"rust-open-telemetry\"} 60\n\
                    system_total_disks_space{service=\"rust-open-telemetry\"} 900\n\
                    system_used_disks_usage{service=\"rust-open-telemetry\"} 700\n";
    assert_eq!(reg.render(), expected);
}

#[test]
fn describe_writes_byte_sizes() {
    let m = SystemMetrics::new(1250, 1250, 1024, 512, 0, 0, &vec![disk("/", 2048, 1024)], &"/".to_string());
    assert_eq!(
        m.describe(),
        "CPUs:       12.5%\nMemory:     512 B / 1.0 KiB\nSwap:       0 B / 0 B\nDisk usage: 1.0 KiB / 2.0 KiB"
    );
}

#[test]
fn format_summary_lays_out_lines() {
    let s = request_metrics::system::format_summary(
        50,
        &"a".to_string(),
        &"b".to_string(),
        &"c".to_string(),
        &"d".to_string(),
        &"e".to_string(),
        &"f".to_string(),
    );
    assert_eq!(s, "CPUs:       0.1%\nMemory:     a / b\nSwap:       c / d\nDisk usage: e / f");
}

#[test]
fn describe_all_zero_snapshot() {
    let m = SystemMetrics::new(0, 0, 0, 0, 0, 0, &Vec::new(), &"/".to_string());
    assert_eq!(m.describe(), "CPUs:       0.0%\nMemory:     0 B / 0 B\nSwap:       0 B / 0 B\nDisk usage: 0 B / 0 B");
}

#[test]
fn describe_rounds_cpu_to_tenths() {
    let up = SystemMetrics::new(1275, 1275, 0, 0, 0, 0, &Vec::new(), &"/".to_string());
    assert!(up.describe().starts_with("CPUs:       12.8%\n"));
    let down = SystemMetrics::new(1234, 1234, 0, 0, 0, 0, &Vec::new(), &"/".to_string());
    assert!(down.describe().starts_with("CPUs:       12.3%\n"));
    let full = SystemMetrics::new(10000, 10000, 0, 0, 0, 0, &Vec::new(), &"/".to_string());
    assert!(full.describe().starts_with("CPUs:       100.0%\n"));
}

#[test]
fn trailing_separator_names_the_same_mount_point() {
    let disks = vec![disk("/data/", 1000, 400), disk("/data2", 500, 100), disk("/", 70, 10)];
    let m = SystemMetrics::new(0, 0, 0, 0, 0, 0, &disks, &"/data".to_string());
    assert_eq!(m.total_disks_space(), 1000);
    assert_eq!(m.used_disks_space(), 600);
    let root = SystemMetrics::new(0, 0, 0, 0, 0, 0, &disks, &"//".to_string());
    assert_eq!(root.total_disks_space(), 70);
}

#[test]
fn cpu_mean_keeps_the_half() {
    let m = SystemMetrics::new(1275, 1300, 0, 0, 0, 0, &Vec::new(), &"/".to_string());
    assert_eq!(m.cpu_usage(), 12875);
    assert_eq!(m.cpu_gauge(), Fixed { units: 12875, scale: 3 });
    assert!(m.describe().starts_with("CPUs:       12.9%\n"));
}

#[test]
fn mount_points_compare_by_components() {
    let disks = vec![disk("/data/x", 10, 4), disk("/data/y", 500, 100)];
    for configured in ["/data//x", "/data/./x", "/data/x/.", "/data/x/", "//data///x//"] {
        let m = SystemMetrics::new(0, 0, 0, 0, 0, 0, &disks, &configured.to_string());
        assert_eq!(m.total_disks_space(), 10, "{configured}");
        assert_eq!(m.used_disks_space(), 6, "{configured}");
    }
    for configured in ["/data", "data/x", "/data/x/..", "/data/xx", "/data/x/z"] {
        let m = SystemMetrics::new(0, 0, 0, 0, 0, 0, &disks, &configured.to_string());
        assert_eq!(m.total_disks_space(), 0, "{configured}");
    }
}

#[test]
fn leading_current_directory_is_a_component() {
    let disks = vec![disk("./mnt", 10, 0), disk("mnt", 20, 0)];
    let dotted = SystemMetrics::new(0, 0, 0, 0, 0, 0, &disks, &"./mnt".to_string());
    assert_eq!(dotted.total_disks_space(), 10);
    let plain = SystemMetrics::new(0, 0, 0, 0, 0, 0, &disks, &"mnt/.".to_string());
    assert_eq!(plain.total_disks_space(), 20);
}
