use jr::metric::Metric;
use jr::query::{
    jq_keys, lookup_arg, parse_args, parse_method, query_error_metric, query_plan, HttpMethod,
    QueryPlan,
};

fn value_f64(m: &Metric) -> Option<f64> {
    m.value.as_deref().map(|s| s.parse::<f64>().unwrap())
}

#[test]
fn test_query_api_missing_url() {
    let mut metric = Metric::default();
    metric.args = "method=GET".to_string();
    let result = match query_plan(&metric) {
        QueryPlan::Fail(m) => m,
        _ => panic!("a missing url must fail the probe"),
    };
    assert_eq!(result.status, "error");
    assert_eq!(result.message, Some("url is a mandatory argument".to_string()));
    assert_eq!(value_f64(&result), Some(-1.0));
}

#[test]
fn query_plan_defaults_to_get() {
    let mut metric = Metric::default();
    metric.short_name = "q".to_string();
    metric.args = "url=http://example.org jq=.a.b".to_string();
    match query_plan(&metric) {
        QueryPlan::Request { url, method, jq, base } => {
            assert_eq!(url, "http://example.org");
            assert_eq!(method, HttpMethod::Get);
            assert_eq!(jq.as_deref(), Some(".a.b"));
            assert_eq!(base.graph_short_name.as_deref(), Some("q"));
        },
        _ => panic!("a well-formed probe must yield a request"),
    }
}

#[test]
fn query_plan_rejects_an_unknown_method() {
    let mut metric = Metric::default();
    metric.short_name = "q".to_string();
    metric.args = "url=http://example.org method=brew".to_string();
    match query_plan(&metric) {
        QueryPlan::UnsupportedMethod { token, base } => {
            assert_eq!(token, "brew");
            assert_eq!(base.graph_short_name.as_deref(), Some("q"));
        },
        _ => panic!("an unknown method must be reported"),
    }
}

#[test]
fn parse_args_splits_key_value_tokens() {
    let pairs = parse_args("url=http://x method=GET plain jq=.a=b");
    assert_eq!(pairs.len(), 3);
    assert_eq!(pairs[0], ("url".to_string(), "http://x".to_string()));
    assert_eq!(pairs[1], ("method".to_string(), "GET".to_string()));
    // Only the first `=` splits; the rest stays in the value.
    assert_eq!(pairs[2], ("jq".to_string(), ".a=b".to_string()));
}

#[test]
fn lookup_arg_takes_the_last_occurrence() {
    let pairs = parse_args("a=1 b=2 a=3");
    assert_eq!(lookup_arg(&pairs, "a").as_deref(), Some("3"));
    assert_eq!(lookup_arg(&pairs, "b").as_deref(), Some("2"));
    assert_eq!(lookup_arg(&pairs, "c"), None);
}

#[test]
fn methods_match_without_regard_to_case() {
    assert_eq!(parse_method("GET"), Some(HttpMethod::Get));
    assert_eq!(parse_method("get"), Some(HttpMethod::Get));
    assert_eq!(parse_method("pAtCh"), Some(HttpMethod::Patch));
    assert_eq!(parse_method("POST"), Some(HttpMethod::Post));
    assert_eq!(parse_method("PUT"), Some(HttpMethod::Put));
    assert_eq!(parse_method("DELETE"), Some(HttpMethod::Delete));
    assert_eq!(parse_method("HEAD"), None);
    assert_eq!(parse_method(""), None);
}

#[test]
fn jq_keys_follow_the_dots() {
    let keys = jq_keys(".data.value");
    assert_eq!(keys, vec!["data".to_string(), "value".to_string()]);
    let keys = jq_keys("..a.b.");
    assert_eq!(keys, vec!["a".to_string(), "b".to_string(), "".to_string()]);
    let keys = jq_keys("plain");
    assert_eq!(keys, vec!["plain".to_string()]);
}

#[test]
fn query_success_carries_the_found_number() {
    let mut base = Metric::default();
    base.short_name = "q".to_string();
    base.graph_short_name = Some("q".to_string());
    let m = jr::query::query_value_metric(&base, "42".to_string(), 42);
    assert_eq!(m.status, "ok");
    assert_eq!(value_f64(&m), Some(42.0));
    assert_eq!(m.graph_value, Some(42));
    assert_eq!(m.graph_short_name.as_deref(), Some("q"));
}

#[test]
fn query_errors_carry_the_sentinel_value() {
    let mut metric = Metric::default();
    metric.short_name = "q".to_string();
    let err = query_error_metric(&metric, "jq path is mandatory for this worker");
    assert_eq!(err.status, "error");
    assert_eq!(err.message, Some("jq path is mandatory for this worker".to_string()));
    assert_eq!(value_f64(&err), Some(-1.0));
    assert_eq!(err.short_name, "q");
}
