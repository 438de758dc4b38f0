use pnos_runtime::metrics::{
    endpoint_key, escape, get_metrics, not_initialized_body, now_ms, to_prometheus, DurationTexts,
    EndpointStat, Metrics, MetricsQuery, MetricsReply, MetricsSnapshot, ProcessSnapshot,
    SAMPLE_CAP,
};
use pnos_runtime::registry::{
    ComponentProfile, ComponentRegisterRequest, ComponentStatus, Registry,
};

fn process() -> ProcessSnapshot {
    ProcessSnapshot { pid: 9, cpu_bits: 0, memory_bytes: 4096, thread_count: 3, open_files: -1 }
}

fn snapshot(m: &Metrics, r: &Registry, now: u64) -> MetricsSnapshot {
    match get_metrics(Some(m), r, process(), now, &MetricsQuery { format: None }) {
        MetricsReply::Json(s) => s,
        _ => panic!("no report"),
    }
}

fn request(id: &str) -> ComponentRegisterRequest {
    ComponentRegisterRequest {
        id: id.to_string(),
        name: id.to_string(),
        version: "1".to_string(),
        component_type: "app".to_string(),
        port: 1,
        serve_host: None,
        serve_port: None,
        profile: ComponentProfile {
            capabilities: vec![],
            region: None,
            hostname: None,
            platform: None,
            arch: None,
            labels: vec![],
            max_concurrent: None,
            max_bandwidth_bps: None,
            web_path: None,
        },
    }
}

#[test]
fn errors_are_counted_by_status() {
    let mut m = Metrics::new();
    for status in [200u16, 399, 400, 404, 499, 500, 503] {
        assert!(m.can_record("GET /x"));
        m.record("GET /x", 1_500, status);
    }
    let s = snapshot(&m, &Registry::new(1), 0);
    assert_eq!(s.endpoints.len(), 1);
    let e = &s.endpoints[0];
    assert_eq!(e.endpoint, "GET /x");
    assert_eq!(e.count, 7);
    assert_eq!(e.errors, 5);
    assert_eq!(e.server_errors, 2);
    assert_eq!(e.total_us, 7);
}

#[test]
fn percentiles_of_a_hundred_durations() {
    let mut s = EndpointStat::new();
    assert_eq!(s.percentile(500), 0);
    for i in 0..100u64 {
        s.record((99 - i) * 10, 200);
    }
    assert_eq!(s.percentile(0), 0);
    assert_eq!(s.percentile(500), 500);
    assert_eq!(s.percentile(950), 950);
    assert_eq!(s.percentile(990), 990);
    assert_eq!(s.percentile(999), 990);
    assert_eq!(s.percentile(1000), 990);
    assert!(s.percentile(500) <= s.percentile(950));
}

#[test]
fn only_the_latest_durations_are_kept() {
    let mut s = EndpointStat::new();
    for _ in 0..SAMPLE_CAP {
        s.record(1, 200);
    }
    for _ in 0..SAMPLE_CAP {
        s.record(2, 200);
    }
    assert_eq!(s.samples.len(), SAMPLE_CAP);
    assert_eq!(s.percentile(0), 2);
    assert_eq!(s.count, 2 * SAMPLE_CAP as u64);
}

#[test]
fn requests_under_way_balance() {
    let mut m = Metrics::new();
    m.in_flight_inc();
    m.in_flight_inc();
    m.in_flight_dec();
    assert_eq!(snapshot(&m, &Registry::new(1), 0).in_flight, 1);
    m.in_flight_dec();
    m.in_flight_dec();
    assert_eq!(snapshot(&m, &Registry::new(1), 0).in_flight, usize::MAX);
}

#[test]
fn task_ages() {
    let mut m = Metrics::new();
    assert_eq!(m.task_age_ms("monitor", 5), None);
    m.mark_task("monitor", 100);
    assert_eq!(m.task_age_ms("monitor", 100), Some(0));
    assert_eq!(m.task_age_ms("monitor", 350), Some(250));
    assert_eq!(m.task_age_ms("monitor", 50), Some(0));
    assert_eq!(m.task_age_ms("other", 100), None);
    let s = snapshot(&m, &Registry::new(1), 150);
    assert_eq!(s.monitor_age_ms, 50);
    assert_eq!(s.heartbeat_checker_age_ms, u64::MAX);
    assert_eq!(s.store_refresh_age_ms, u64::MAX);
}

#[test]
fn process_figures_are_kept_for_a_second() {
    let mut m = Metrics::new();
    let first = process();
    let second = ProcessSnapshot { pid: 10, ..first };
    assert!(m.cached_process(0).is_none());
    assert_eq!(m.proc_snapshot(first, 1_000), first);
    assert_eq!(m.proc_snapshot(second, 1_000_000_999), first);
    assert_eq!(m.proc_snapshot(second, 1_000_001_000), second);
    assert_eq!(m.cached_process(1_000_001_000), Some(second));
}

#[test]
fn components_are_counted() {
    let mut r = Registry::new(10);
    r.register(request("a"), "t", 0);
    r.register(request("b"), "t", 0);
    r.heartbeat("b", ComponentStatus::Offline, 0, 0, 0, "t", 0);
    let mut m = Metrics::new();
    m.incr_agent_crash();
    m.incr_agent_restart();
    m.incr_agent_restart();
    m.set_store_refresh_ms(77);
    let s = snapshot(&m, &r, 0);
    assert_eq!(s.components, 2);
    assert_eq!(s.offline, 1);
    assert_eq!(s.agent_crashes, 1);
    assert_eq!(s.agent_restarts, 2);
    assert_eq!(s.store_refresh_ms, 77);
}

#[test]
fn endpoint_names() {
    assert_eq!(endpoint_key("GET", Some("/a/:id"), "/a/7"), "GET /a/:id");
    assert_eq!(endpoint_key("POST", None, "/b"), "POST /b");
}

#[test]
fn replies_by_format() {
    let m = Metrics::new();
    let r = Registry::new(1);
    let none = get_metrics(None, &r, process(), 0, &MetricsQuery { format: None });
    assert!(matches!(none, MetricsReply::NotInitialized));
    assert_eq!(none.status(), 500);
    assert_eq!(none.content_type(), None);
    assert_eq!(not_initialized_body(), "metrics not initialized");
    let json = get_metrics(Some(&m), &r, process(), 0, &MetricsQuery { format: Some("json".to_string()) });
    assert!(matches!(json, MetricsReply::Json(_)));
    assert_eq!(json.status(), 200);
    assert_eq!(json.content_type(), Some("application/json"));
    let prom = get_metrics(Some(&m), &r, process(), 0, &MetricsQuery { format: Some("prom".to_string()) });
    assert!(matches!(prom, MetricsReply::Prometheus(_)));
    assert_eq!(prom.content_type(), Some("text/plain; version=0.0.4"));
}

#[test]
fn prometheus_text() {
    let mut m = Metrics::new();
    m.record("GET /\"q\"", 2_000_000, 404);
    let s = snapshot(&m, &Registry::new(1), 0);
    let texts = vec![DurationTexts {
        p50_ms: "2".to_string(),
        p99_ms: "2".to_string(),
        p999_ms: "2.5".to_string(),
    }];
    let expected = "pnos_http_requests_total{endpoint=\"GET /\\\"q\\\"\"} 1\n\
pnos_http_errors_total{endpoint=\"GET /\\\"q\\\"\"} 1\n\
pnos_http_duration_ms{endpoint=\"GET /\\\"q\\\"\"} 2\n\
pnos_http_duration_p99_ms{endpoint=\"GET /\\\"q\\\"\"} 2\n\
pnos_http_duration_p999_ms{endpoint=\"GET /\\\"q\\\"\"} 2.5\n\
pnos_components_total 0\n\
pnos_components_offline 0\n\
pnos_agent_crashes_total 0\n\
pnos_agent_restarts_total 0\n\
pnos_process_resident_bytes 4096\n\
pnos_process_cpu_percent 1.5\n\
pnos_process_threads 3\n";
    assert_eq!(to_prometheus(&s, &texts, "1.5"), expected);
}

#[test]
fn labels_are_escaped() {
    assert_eq!(escape("GET /a"), "GET /a");
    assert_eq!(escape("a\\b\"c\nd"), "a\\\\b\\\"c\\nd");
    assert_eq!(escape("\\n\\\""), "\\\\n\\\\\\\"");
    assert_eq!(escape(""), "");
}

#[test]
fn five_lines_for_an_endpoint() {
    let mut m = Metrics::new();
    m.record("GET /a", 1_500_000, 200);
    m.record("GET /a", 3_500_000, 500);
    let s = snapshot(&m, &Registry::new(1), 0);
    let texts = vec![DurationTexts {
        p50_ms: "1.5".to_string(),
        p99_ms: "2.5".to_string(),
        p999_ms: "3.5".to_string(),
    }];
    let text = to_prometheus(&s, &texts, "0");
    let lines: Vec<&str> = text.lines().take(5).collect();
    assert_eq!(
        lines,
        vec![
            "pnos_http_requests_total{endpoint=\"GET /a\"} 2",
            "pnos_http_errors_total{endpoint=\"GET /a\"} 1",
            "pnos_http_duration_ms{endpoint=\"GET /a\"} 1.5",
            "pnos_http_duration_p99_ms{endpoint=\"GET /a\"} 2.5",
            "pnos_http_duration_p999_ms{endpoint=\"GET /a\"} 3.5",
        ]
    );
}

#[test]
fn wall_clock_milliseconds() {
    assert_eq!(now_ms(None), 0);
    assert_eq!(now_ms(Some((12, 345_678_901))), 12_345);
}
