use jr::cmdline::{parse_config_from_args, placeholder_name};

#[test]
fn empty_command_string_yields_no_override() {
    let r = parse_config_from_args(
        Some(5),
        true,
        Some("n".to_string()),
        Some("df".to_string()),
        None,
        None,
        "".to_string(),
        None,
    );
    assert!(r.is_none());
}

#[test]
fn override_defaults_when_only_a_command_is_given() {
    let m = parse_config_from_args(
        None,
        false,
        None,
        None,
        None,
        None,
        "sleep 1".to_string(),
        Some("mordor".to_string()),
    )
    .unwrap();
    assert_eq!(m.n, 9999999);
    assert!(!m.once);
    assert_eq!(m.function, "timethis");
    assert_eq!(m.args, "sleep 1");
    assert_eq!(m.short_name, "sleep_mordor");
    assert_eq!(m.group, "Default");
    assert_eq!(m.min_value, None);
    assert_eq!(m.max_value, None);
    assert_eq!(m.status, "ok");
}

#[test]
fn override_takes_every_flag_through() {
    let m = parse_config_from_args(
        Some(60),
        true,
        Some("test_metric".to_string()),
        Some("timethis".to_string()),
        Some("10.5".to_string()),
        Some("20.5".to_string()),
        "sleep 0.1".to_string(),
        None,
    )
    .unwrap();
    assert_eq!(m.n, 60);
    assert!(m.once);
    assert_eq!(m.function, "timethis");
    assert_eq!(m.short_name, "test_metric");
    assert_eq!(m.min_value.as_deref().map(|s| s.parse::<f64>().unwrap()), Some(10.5));
    assert_eq!(m.max_value.as_deref().map(|s| s.parse::<f64>().unwrap()), Some(20.5));
}

#[test]
fn placeholder_name_is_command_and_host() {
    assert_eq!(placeholder_name("sleep 0.1", Some("host1")), "sleep_host1");
    assert_eq!(placeholder_name("", Some("host1")), "_host1");
    assert_eq!(placeholder_name("uptime", None), "uptime_no_hostname");
}
