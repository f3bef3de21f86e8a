use rustdesk_server_pro::metrics::{
    counter_label_pairs, export_counter, export_gauge, export_histogram, histogram_label_pairs,
    request_label, Counter, Gauge, MetricFamily, RequestTimer,
};
use rustdesk_server_pro::prometheus::{trim_total_suffix, PrometheusMetrics};

fn pairs(v: &[(String, String)]) -> Vec<(&str, &str)> {
    v.iter().map(|(a, b)| (a.as_str(), b.as_str())).collect()
}

#[test]
fn test_metrics_collector() {
    let mut http_requests_total = Counter::new();
    let mut http_request_durations = Counter::new();
    let mut in_flight = Gauge::new();
    let mut users = Gauge::new();
    let devices = Gauge::new();
    let sessions = Gauge::new();
    let mut validations = Counter::new();
    let empty = Counter::new();

    in_flight.inc();
    let label = request_label("GET", "/api/users");
    http_requests_total.inc_by(&label, 1);
    http_request_durations.inc_by(&label, 1);
    users.set(10);
    validations.inc();

    let exported = PrometheusMetrics::collect(
        &http_requests_total,
        &http_request_durations,
        &in_flight,
        &users,
        &devices,
        &sessions,
        &validations,
        &empty,
        &empty,
        &empty,
        &empty,
        &empty,
    );

    assert!(!exported.http_requests_in_flight.is_empty());
    assert_eq!(exported.http_requests_in_flight[0].metrics[0].value, 1);
    assert_eq!(exported.active_users[0].metrics[0].value, 10);
    assert_eq!(exported.http_requests_total[0].metrics[0].value, 1);
    assert_eq!(exported.http_request_duration_seconds[0].metrics[0].value, 1);
    assert_eq!(exported.license_validations_total[0].metrics[0].value, 1);
}

#[test]
fn counter_counts_per_label() {
    let mut c = Counter::new();
    assert!(c.is_empty());
    assert_eq!(c.get("x"), 0);
    c.inc_by("x", 2);
    c.inc_by("y", 5);
    c.inc_by("x", 3);
    assert_eq!(c.get("x"), 5);
    assert_eq!(c.get("y"), 5);
    assert_eq!(c.get("z"), 0);
    c.inc();
    c.inc();
    assert_eq!(c.get(""), 2);
}

#[test]
fn gauge_moves_both_ways() {
    let mut g = Gauge::new();
    assert_eq!(g.get(), 0);
    g.inc();
    g.inc();
    g.dec();
    assert_eq!(g.get(), 1);
    g.dec();
    g.dec();
    assert_eq!(g.get(), -1);
    g.set(42);
    assert_eq!(g.get(), 42);
}

#[test]
fn request_timer_measures() {
    let t = RequestTimer::new();
    let d = t.elapsed();
    assert!(d.as_secs() < 60);
}

#[test]
fn labels_split_at_the_first_colon() {
    let l = request_label("GET", "/a:b");
    assert_eq!(l, "GET:/a:b");
    assert_eq!(pairs(&counter_label_pairs(&l)), vec![("method", "GET"), ("path", "/a:b")]);
    assert_eq!(pairs(&counter_label_pairs("device")), vec![("type", "device")]);
    assert!(counter_label_pairs("").is_empty());
    assert_eq!(pairs(&histogram_label_pairs("users")), vec![("table", "users")]);
    assert!(histogram_label_pairs("").is_empty());
}

#[test]
fn exports_follow_label_order() {
    let mut c = Counter::new();
    assert!(export_counter(&c, "n", "h").is_empty());
    c.inc_by("GET:/x", 2);
    c.inc_by("login", 1);
    c.inc_by("GET:/x", 1);
    let f = export_counter(&c, "http_requests_total", "Total HTTP requests");
    assert_eq!(f.len(), 1);
    assert_eq!(f[0].name, "http_requests_total");
    assert_eq!(f[0].help, "Total HTTP requests");
    assert_eq!(f[0].metrics.len(), 2);
    assert_eq!(f[0].metrics[0].value, 3);
    assert_eq!(pairs(&f[0].metrics[0].labels), vec![("method", "GET"), ("path", "/x")]);
    assert_eq!(pairs(&f[0].metrics[1].labels), vec![("type", "login")]);
    let h = export_histogram(&c, "d", "h");
    assert_eq!(pairs(&h[0].metrics[0].labels), vec![("table", "GET:/x")]);
}

fn fam(name: &str, f: Vec<MetricFamily>) -> Vec<MetricFamily> {
    let _ = name;
    f
}

#[test]
fn prometheus_text_layout() {
    let mut requests = Counter::new();
    requests.inc_by("GET:/h", 2);
    let mut durations = Counter::new();
    durations.inc_by("GET:/h", 1);
    let mut in_flight = Gauge::new();
    in_flight.set(3);
    let mut users = Gauge::new();
    users.set(7);
    let mut audit = Counter::new();
    audit.inc_by("device", 4);
    let m = PrometheusMetrics {
        http_requests_total: export_counter(&requests, "http_requests_total", "t"),
        http_request_duration_seconds: export_histogram(&durations, "http_request_duration_seconds", "d"),
        http_requests_in_flight: export_gauge(&in_flight, "http_requests_in_flight", "f"),
        active_users: export_gauge(&users, "active_users", "u"),
        active_devices: Vec::new(),
        active_sessions: Vec::new(),
        license_validations_total: Vec::new(),
        db_query_total: Vec::new(),
        db_query_duration_seconds: fam("x", export_histogram(&durations, "db_query_duration_seconds", "q")),
        cache_hits_total: Vec::new(),
        cache_misses_total: Vec::new(),
        audit_logs_total: export_counter(&audit, "audit_logs_total", "a"),
    };
    let text = m.render();
    assert_eq!(
        text,
        "http_requests_total {method=\"GET\",path=\"/h\"} 2\n\
         http_request_duration_seconds_sum {table=\"GET:/h\"} 1\n\
         http_requests_in_flight  3\n\
         active_users 7\n\
         audit_logs_total {type=\"device\"} 4\n"
    );
}

#[test]
fn trailing_totals_are_trimmed() {
    assert_eq!(trim_total_suffix("a_total_total"), "a");
    assert_eq!(trim_total_suffix("requests"), "requests");
    assert_eq!(trim_total_suffix("_total"), "");
}

#[test]
fn counter_sum_ignores_order() {
    let incs = [("a", 2u64), ("b", 5), ("a", 3), ("", 1), ("b", 1)];
    let mut forward = Counter::new();
    for (l, v) in incs.iter() {
        forward.inc_by(l, *v);
    }
    let mut backward = Counter::new();
    for (l, v) in incs.iter().rev() {
        backward.inc_by(l, *v);
    }
    for l in ["a", "b", "", "c"] {
        assert_eq!(forward.get(l), backward.get(l));
    }
    assert_eq!(forward.get("a"), 5);
    assert_eq!(forward.get("b"), 6);
    assert_eq!(forward.get(""), 1);
}

#[test]
fn collected_export_writes_one_line_per_gauge() {
    let empty = Counter::new();
    let mut in_flight = Gauge::new();
    in_flight.inc();
    let mut users = Gauge::new();
    users.set(10);
    let zero = Gauge::new();
    let mut validations = Counter::new();
    validations.inc();
    let m = PrometheusMetrics::collect(
        &empty, &empty, &in_flight, &users, &zero, &zero, &validations, &empty, &empty, &empty,
        &empty, &empty,
    );
    assert!(m.http_requests_total.is_empty());
    assert_eq!(m.active_users[0].name, "active_users");
    assert_eq!(m.active_users[0].help, "Number of active users");
    assert_eq!(
        m.render(),
        "http_requests_in_flight  1\nactive_users 10\nactive_devices 0\nactive_sessions 0\nlicense_validations_total 1\n"
    );
}
