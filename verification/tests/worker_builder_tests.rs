use jr::metric::Metric;
use jr::workers::{
    check_url_metric, check_url_target, df_not_found_metric, find_disk, load_avg_metric,
    load_avg_short_name, runthis_metric, timethis_metric, UrlOutcome,
};

fn probe(name: &str, args: &str) -> Metric {
    let mut m = Metric::default();
    m.short_name = name.to_string();
    m.args = args.to_string();
    m
}

fn value_f64(m: &Metric) -> Option<f64> {
    m.value.as_deref().map(|s| s.parse::<f64>().unwrap())
}

#[test]
fn check_url_target_defaults_when_blank() {
    assert_eq!(check_url_target("  "), "https://lwn.net");
    assert_eq!(check_url_target(" https://example.org "), "https://example.org");
}

#[test]
fn check_url_success_measurement() {
    let p = probe("web", "https://example.org");
    let m = check_url_metric(&p, UrlOutcome::Success { elapsed_ms: 120 });
    assert_eq!(value_f64(&m), Some(120.0));
    assert_eq!(m.units.as_deref(), Some("ms"));
    assert_eq!(m.message.as_deref(), Some("Success"));
    assert_eq!(m.graph_value, Some(120));
    assert_eq!(m.status, "ok");
    assert_eq!(m.short_name, "web");
}

#[test]
fn check_url_http_error_measurement() {
    let p = probe("web", "https://example.org");
    let m = check_url_metric(
        &p,
        UrlOutcome::HttpError { elapsed_ms: 80, status_line: "404 Not Found".to_string() },
    );
    assert_eq!(value_f64(&m), Some(80.0));
    assert_eq!(m.message.as_deref(), Some("HTTP error: 404 Not Found"));
    assert_eq!(m.graph_value, Some(80));
    assert_eq!(m.status, "ok");
}

#[test]
fn check_url_request_failure_measurement() {
    let p = probe("web", "https://nonexistent.url.fail");
    let m = check_url_metric(&p, UrlOutcome::RequestFailed);
    assert_eq!(m.message.as_deref(), Some("ERROR"));
    assert_eq!(value_f64(&m), Some(0.0));
    assert_eq!(m.status, "error");
    assert_eq!(m.graph_value, None);
}

#[test]
fn load_avg_names_and_fields() {
    assert_eq!(load_avg_short_name(""), "load_avg_localhost");
    assert_eq!(load_avg_short_name(" box "), "load_avg_box");
    let p = probe("load", "localhost");
    let m = load_avg_metric(&p, "37".to_string(), 37);
    assert_eq!(value_f64(&m), Some(37.0));
    assert_eq!(m.message.as_deref(), Some("Hey"));
    assert_eq!(m.graph_value, Some(37));
    assert_eq!(m.graph_short_name.as_deref(), Some("load_avg_localhost"));
}

#[test]
fn timethis_success_and_failure() {
    let p = probe("test", "echo hello");
    let ok = timethis_metric(&p, 102, true);
    assert_eq!(ok.message.as_deref(), Some("OK"));
    assert_eq!(value_f64(&ok), Some(102.0));
    assert_eq!(ok.units.as_deref(), Some("ms"));
    assert_eq!(ok.graph_value, Some(102));
    assert_eq!(ok.graph_type.as_deref(), Some("time"));
    assert_eq!(ok.graph_short_name.as_deref(), Some("test"));

    let bad = timethis_metric(&p, 3, false);
    assert_eq!(bad.message.as_deref(), Some("Failed to execute command"));
    assert_eq!(value_f64(&bad), Some(-3.0));
    assert_eq!(bad.graph_value, Some(-3));
    assert_eq!(bad.graph_type, None);
    assert_eq!(bad.status, "error");
}

#[test]
fn runthis_reports_the_printed_number_or_the_failure() {
    let p = probe("test", "somecmd");
    let ok = runthis_metric(&p, Some(42));
    assert_eq!(value_f64(&ok), Some(42.0));
    assert_eq!(ok.units, None);
    assert_eq!(ok.message.as_deref(), Some("OK"));
    assert_eq!(ok.graph_value, Some(42));
    assert_eq!(ok.status, "ok");

    let neg = runthis_metric(&p, Some(-8));
    assert_eq!(value_f64(&neg), Some(-8.0));
    assert_eq!(neg.graph_value, Some(-8));

    let bad = runthis_metric(&p, None);
    assert_eq!(value_f64(&bad), Some(-1.0));
    assert_eq!(bad.message.as_deref(), Some("Failed to execute command"));
    assert_eq!(bad.graph_value, Some(-1));
    assert_eq!(bad.status, "error");
}

#[test]
fn find_disk_picks_the_first_matching_mount() {
    let disks = vec![
        ("/".to_string(), 100, 40),
        ("/home".to_string(), 200, 50),
        ("/home".to_string(), 300, 60),
    ];
    assert_eq!(find_disk(&disks, "/home"), Some(1));
    assert_eq!(find_disk(&disks, "/"), Some(0));
    assert_eq!(find_disk(&disks, "/var"), None);
}

#[test]
fn df_reports_a_missing_filesystem() {
    let p = probe("disk", "/nope");
    let m = df_not_found_metric(&p);
    assert_eq!(value_f64(&m), Some(0.0));
    assert_eq!(m.graph_value, Some(0));
    assert_eq!(m.message.as_deref(), Some("Filesystem '/nope' not found"));
}

#[test]
fn default_metric_fields() {
    let m = Metric::default();
    assert_eq!(m.n, 0);
    assert!(!m.once);
    assert_eq!(m.function, "");
    assert_eq!(m.group, "");
    assert_eq!(m.args, "");
    assert_eq!(m.short_name, "");
    assert_eq!(m.min_value, None);
    assert_eq!(m.max_value, None);
    assert_eq!(m.value, None);
    assert_eq!(m.units, None);
    assert_eq!(m.message, None);
    assert_eq!(m.graph_value, None);
    assert_eq!(m.graph_type, None);
    assert_eq!(m.graph_short_name, None);
    assert_eq!(m.status, "ok");
}
