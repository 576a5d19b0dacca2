use heisensim::cli::args::DurationArgError;
use heisensim::cli::config_file::{
    get_entry, rbac_faults, split_comma_list, validate_config, ConfigError, ConfigValue, SettingKey,
};
use heisensim::text::IntErrorKind;

fn text(s: &str) -> ConfigValue {
    ConfigValue::Text(s.to_string())
}

fn table(pairs: Vec<(&str, ConfigValue)>) -> ConfigValue {
    ConfigValue::Table(pairs.into_iter().map(|(k, v)| (k.to_string(), v)).collect())
}

fn strings(v: &[&str]) -> Vec<String> {
    v.iter().map(|s| s.to_string()).collect()
}

#[test]
fn comma_lists_split_and_trim() {
    assert_eq!(split_comma_list("crash, latency ,dns"), strings(&["crash", "latency", "dns"]));
    assert_eq!(split_comma_list(""), strings(&[""]));
    assert_eq!(split_comma_list("a,"), strings(&["a", ""]));
}

#[test]
fn entries_are_found_by_key_in_tables_only() {
    let t = table(vec![("a", text("1")), ("b", ConfigValue::Other)]);
    assert!(matches!(get_entry(&t, "a"), Some(ConfigValue::Text(s)) if s == "1"));
    assert!(matches!(get_entry(&t, "b"), Some(ConfigValue::Other)));
    assert!(get_entry(&t, "c").is_none());
    assert!(get_entry(&text("a"), "a").is_none());
}

#[test]
fn rbac_faults_come_from_the_argument_without_a_config() {
    assert_eq!(rbac_faults("crash, latency", None), strings(&["crash", "latency"]));
}

#[test]
fn rbac_faults_come_from_the_config_fault_list() {
    let config = table(vec![(
        "faults",
        ConfigValue::List(vec![
            table(vec![("type", text("partition"))]),
            table(vec![("weight", ConfigValue::Other)]),
            table(vec![("type", text("dns"))]),
        ]),
    )]);
    assert_eq!(rbac_faults("crash", Some(&config)), strings(&["partition", "dns"]));
}

#[test]
fn rbac_adds_debug_for_debug_injection_once() {
    let config = table(vec![("simulation", table(vec![("inject_method", text("debug"))]))]);
    assert_eq!(rbac_faults("crash", Some(&config)), strings(&["crash", "debug"]));
    assert_eq!(rbac_faults("debug,crash", Some(&config)), strings(&["debug", "crash"]));
    let exec = table(vec![("simulation", table(vec![("inject_method", text("exec"))]))]);
    assert_eq!(rbac_faults("crash", Some(&exec)), strings(&["crash"]));
}

#[test]
fn validate_fills_in_defaults() {
    let s = validate_config(&table(vec![])).unwrap();
    assert_eq!((s.duration.as_str(), s.warmup.as_str(), s.namespace.as_str()), ("30s", "5s", "default"));
    assert!(s.faults.is_empty() && s.probe_names.is_empty());
}

#[test]
fn validate_reads_faults_and_probe_names() {
    let config = table(vec![
        ("duration", text("2m")),
        ("namespace", text("shop")),
        ("faults", ConfigValue::List(vec![text("crash"), text("dns")])),
        (
            "probes",
            ConfigValue::List(vec![
                table(vec![("name", text("api")), ("url", text("https://api/healthz"))]),
                table(vec![("url", text("http://web/"))]),
            ]),
        ),
    ]);
    let s = validate_config(&config).unwrap();
    assert_eq!(s.duration, "2m");
    assert_eq!(s.namespace, "shop");
    assert_eq!(s.faults, strings(&["crash", "dns"]));
    assert_eq!(s.probe_names, strings(&["api", "unnamed"]));
}

#[test]
fn validate_refuses_in_check_order() {
    let bad_type = table(vec![("warmup", ConfigValue::Other), ("duration", ConfigValue::Other)]);
    assert_eq!(validate_config(&bad_type), Err(ConfigError::NotText(SettingKey::RunDuration)));
    let bad_duration = table(vec![("duration", text("5x"))]);
    assert_eq!(
        validate_config(&bad_duration),
        Err(ConfigError::InvalidDuration(DurationArgError::InvalidDuration(IntErrorKind::InvalidDigit)))
    );
    let bad_warmup = table(vec![("warmup", text("s"))]);
    assert_eq!(
        validate_config(&bad_warmup),
        Err(ConfigError::InvalidWarmup(DurationArgError::InvalidSeconds(IntErrorKind::Empty)))
    );
    let empty_ns = table(vec![("namespace", text(""))]);
    assert_eq!(validate_config(&empty_ns), Err(ConfigError::EmptyNamespace));
    let faults_text = table(vec![("faults", text("crash"))]);
    assert_eq!(validate_config(&faults_text), Err(ConfigError::FaultsNotList));
    let fault_table = table(vec![("faults", ConfigValue::List(vec![text("crash"), table(vec![])]))]);
    assert_eq!(validate_config(&fault_table), Err(ConfigError::FaultNotText));
    let probes_text = table(vec![("probes", text("p"))]);
    assert_eq!(validate_config(&probes_text), Err(ConfigError::ProbesNotList));
}

#[test]
fn validate_reports_the_first_bad_probe() {
    let config = table(vec![(
        "probes",
        ConfigValue::List(vec![
            table(vec![("name", text("ok")), ("url", text("http://a"))]),
            table(vec![("name", text("tcp")), ("url", text("tcp://db:5432"))]),
            table(vec![("name", ConfigValue::Other)]),
        ]),
    )]);
    let err = validate_config(&config).unwrap_err();
    assert_eq!(
        err,
        ConfigError::InvalidProbeUrl { name: "tcp".to_string(), url: "tcp://db:5432".to_string() }
    );
    assert_eq!(err.message(), "Invalid URL in probe 'tcp': tcp://db:5432");
    let unnamed = table(vec![("probes", ConfigValue::List(vec![table(vec![("name", ConfigValue::Other)])]))]);
    assert_eq!(validate_config(&unnamed), Err(ConfigError::ProbeNameNotText));
    let url_number = table(vec![("probes", ConfigValue::List(vec![table(vec![("url", ConfigValue::Other)])]))]);
    assert_eq!(validate_config(&url_number), Err(ConfigError::ProbeUrlNotText));
}

#[test]
fn config_error_messages() {
    assert_eq!(ConfigError::NotText(SettingKey::Namespace).message(), "'namespace' must be a string");
    assert_eq!(ConfigError::FaultNotText.message(), "Faults array must contain only strings");
    assert_eq!(
        ConfigError::InvalidDuration(DurationArgError::InvalidMinutes(IntErrorKind::Empty)).message(),
        "Invalid duration"
    );
}
