use heisensim::cli::args::{
    duration_fits, parse_duration, parse_seed, resolve_faults, DurationArgError, FaultProfile,
    SeedArgError,
};
use heisensim::cli::demo::{ClusterGuard, Teardown};
use heisensim::cli::rbac::generate_rbac;
use heisensim::cli::report::{format_duration, format_timestamp, truncate_str};
use heisensim::diverge::{
    environment_progress, normalize_base_url, resolve_context, resolve_token, Environment,
    EnvironmentDeploy, EnvironmentProgress, EnvironmentRouting, EnvironmentSource,
    EnvironmentSpec, EnvironmentStatus,
};
use heisensim::k8s::cluster::{cluster_listed, K3dCluster};
use heisensim::k8s::discovery::{pod_is_ready, pods_for_services, PodInfo, ServiceInfo};
use heisensim::k8s::fault_ops::{
    debug_container_name, kubectl_args, latency_command, partition_command,
    revert_latency_command, revert_partition_command, ActiveFaultKind, InjectMethod,
};
use heisensim::k8s::fencing::{is_blocked, validate_namespace};
use heisensim::probe::{ProbeConfig, ProbeResult, TcpProbeConfig};
use heisensim::text::IntErrorKind;
use std::collections::HashMap;
use std::time::Duration;

#[test]
fn test_rbac_crash_only() {
    let yaml = generate_rbac("default", &["crash".to_string()], "heisensim");
    assert!(yaml.contains("\"delete\""));
    assert!(!yaml.contains("pods/exec"));
}

#[test]
fn test_rbac_latency() {
    let yaml = generate_rbac("default", &["latency".to_string()], "heisensim");
    assert!(yaml.contains("pods/exec"));
}

#[test]
fn test_rbac_all_faults() {
    let yaml = generate_rbac(
        "default",
        &[
            "crash".to_string(),
            "latency".to_string(),
            "debug".to_string(),
            "stress".to_string(),
            "dns".to_string(),
        ],
        "heisensim",
    );
    assert!(yaml.contains("\"delete\""));
    assert!(yaml.contains("pods/exec"));
    assert!(yaml.contains("pods/ephemeralcontainers"));
}

#[test]
fn test_rbac_valid_yaml() {
    let yaml = generate_rbac("default", &["crash".to_string()], "heisensim");
    assert!(yaml.starts_with("apiVersion: v1"));
    assert!(yaml.contains("kind: Role"));
    assert!(yaml.contains("kind: RoleBinding"));
}

#[test]
fn rbac_eviction_manifest_exact() {
    let yaml = generate_rbac("ns1", &[" eviction ".to_string()], "sa");
    let expected = "apiVersion: v1\nkind: ServiceAccount\nmetadata:\n  name: sa\n  namespace: ns1\n---\napiVersion: rbac.authorization.k8s.io/v1\nkind: Role\nmetadata:\n  name: sa-role\n  namespace: ns1\nrules:\n  - apiGroups: [\"\"]\n    resources: [\"pods\"]\n    verbs: [\"get\", \"list\", \"delete\"]\n  - apiGroups: [\"policy\"]\n    resources: [\"pods/eviction\"]\n    verbs: [\"create\"]\n---\napiVersion: rbac.authorization.k8s.io/v1\nkind: RoleBinding\nmetadata:\n  name: sa-binding\n  namespace: ns1\nroleRef:\n  apiGroup: rbac.authorization.k8s.io\n  kind: Role\n  name: sa-role\nsubjects:\n- kind: ServiceAccount\n  name: sa\n  namespace: ns1\n";
    assert_eq!(yaml, expected);
    let none = generate_rbac("n", &[], "s");
    assert!(none.contains("verbs: [\"get\", \"list\"]\n"));
    assert!(!none.contains("pods/ephemeralcontainers"));
}

#[test]
fn rbac_grants_only_what_the_faults_need() {
    let yaml = generate_rbac("shop", &[" dns".to_string()], "chaos");
    assert!(yaml.contains("pods/exec"));
    assert!(yaml.contains("pods/ephemeralcontainers"));
    assert!(!yaml.contains("pods/eviction"));
    assert!(!yaml.contains("\"delete\""));
    let debug_only = generate_rbac("shop", &["debug".to_string()], "chaos");
    assert!(!debug_only.contains("pods/exec"));
    assert!(debug_only.contains("pods/ephemeralcontainers"));
}

#[test]
fn test_cluster_guard_keeps_when_flagged() {
    let guard = ClusterGuard::new("test-cluster", true);
    assert!(guard.keep);
}

#[test]
fn cluster_guard_teardown() {
    let mut guard = ClusterGuard::new("c", false);
    assert_eq!(guard.teardown(), Teardown::Nothing);
    guard.mark_created();
    assert_eq!(guard.teardown(), Teardown::Delete);
    let mut kept = ClusterGuard::new("c", true);
    kept.mark_created();
    assert_eq!(kept.teardown(), Teardown::Keep);
}

#[test]
fn seeds_parse_as_hex_or_decimal() {
    assert_eq!(parse_seed("0x42"), Ok(0x42));
    assert_eq!(parse_seed("42"), Ok(42));
    assert_eq!(parse_seed("0xZZ"), Err(SeedArgError::InvalidHex(IntErrorKind::InvalidDigit)));
    assert_eq!(parse_seed("0x"), Err(SeedArgError::InvalidHex(IntErrorKind::Empty)));
    assert_eq!(parse_seed(""), Err(SeedArgError::InvalidDecimal(IntErrorKind::Empty)));
    assert_eq!(
        parse_seed("99999999999999999999"),
        Err(SeedArgError::InvalidDecimal(IntErrorKind::PosOverflow))
    );
    assert_eq!(parse_seed("0X10"), Err(SeedArgError::InvalidDecimal(IntErrorKind::InvalidDigit)));
    assert_eq!(
        parse_seed("0xq").unwrap_err().message(),
        "Invalid hex seed: invalid digit found in string"
    );
    assert_eq!(
        parse_seed("+").unwrap_err().message(),
        "Invalid decimal seed: invalid digit found in string"
    );
}

#[test]
fn durations_parse_with_units() {
    assert_eq!(parse_duration("30s"), Ok(Duration::from_secs(30)));
    assert_eq!(parse_duration(" 2m "), Ok(Duration::from_secs(120)));
    assert_eq!(parse_duration("1h"), Ok(Duration::from_secs(3600)));
    assert_eq!(parse_duration("45"), Ok(Duration::from_secs(45)));
    assert_eq!(
        parse_duration("xs"),
        Err(DurationArgError::InvalidSeconds(IntErrorKind::InvalidDigit))
    );
    assert_eq!(parse_duration("m"), Err(DurationArgError::InvalidMinutes(IntErrorKind::Empty)));
    assert_eq!(
        parse_duration("1.5h"),
        Err(DurationArgError::InvalidHours(IntErrorKind::InvalidDigit))
    );
    assert_eq!(
        parse_duration("5d"),
        Err(DurationArgError::InvalidDuration(IntErrorKind::InvalidDigit))
    );
    assert_eq!(
        parse_duration("").unwrap_err().message(),
        "Invalid duration: cannot parse integer from empty string"
    );
    assert!(duration_fits("5m"));
    assert!(!duration_fits("18446744073709551615m"));
    assert!(duration_fits("18446744073709551615s"));
}

#[test]
fn faults_come_from_the_profile_when_given() {
    let listed = vec!["crash".to_string()];
    assert_eq!(resolve_faults(&listed, None), listed);
    assert_eq!(
        resolve_faults(&listed, Some(&FaultProfile::Standard)),
        vec!["crash", "latency", "partition", "stress", "dns"]
    );
    assert_eq!(
        resolve_faults(&listed, Some(&FaultProfile::Aggressive)),
        vec!["crash", "latency", "partition", "stress", "dns", "eviction"]
    );
}

#[test]
fn report_pieces_format() {
    assert_eq!(format_duration(125, 0), "2m 05s");
    assert_eq!(format_duration(3, 7), "3.007s");
    assert_eq!(format_duration(0, 42), "42ms");
    assert_eq!(format_timestamp(65, 9), "01:05.009");
    assert_eq!(format_timestamp(6000, 123), "100:00.123");
    assert_eq!(truncate_str("héllo", 2), "hé");
    assert_eq!(truncate_str("abc", 10), "abc");
}

#[test]
fn test_blocked_namespaces() {
    assert!(validate_namespace("kube-system").is_err());
    assert!(validate_namespace("istio-system").is_err());
    assert!(validate_namespace("cert-manager").is_err());
}

#[test]
fn test_allowed_namespaces() {
    assert!(validate_namespace("default").is_ok());
    assert!(validate_namespace("my-app").is_ok());
    assert!(validate_namespace("preview-pr-123").is_ok());
}

#[test]
fn test_is_blocked() {
    assert!(is_blocked("kube-system"));
    assert!(!is_blocked("default"));
}

#[test]
fn protected_namespace_message() {
    let err = validate_namespace("monitoring").unwrap_err();
    assert_eq!(
        err.message(),
        "Namespace 'monitoring' is protected and cannot be targeted by heisensim.\nProtected namespaces: kube-system, kube-public, kube-node-lease, istio-system, linkerd, cert-manager, ingress-nginx, monitoring, gatekeeper-system, calico-system, tigera-operator\nThis restriction cannot be overridden."
    );
    assert!(is_blocked("tigera-operator"));
    assert!(!is_blocked("kube-system "));
}

#[test]
fn k3d_command_lines() {
    assert_eq!(
        K3dCluster::create_args("demo"),
        vec!["cluster", "create", "demo", "--no-lb", "--wait"]
    );
    let c = K3dCluster {
        name: "demo".to_string(),
    };
    assert_eq!(c.delete_args(), vec!["cluster", "delete", "demo"]);
    assert_eq!(K3dCluster::list_args(), vec!["cluster", "list", "-o", "json"]);
    assert_eq!(c.kubeconfig_args(), vec!["kubeconfig", "get", "demo"]);
}

#[test]
fn k3d_cluster_list_is_read() {
    let json = r#"[{"name":"other"},{"nameless":1},{"name":"demo","servers":1}]"#;
    assert_eq!(cluster_listed(json, "demo"), Ok(true));
    assert_eq!(cluster_listed(json, "missing"), Ok(false));
    assert_eq!(cluster_listed(r#"{"name":"demo"}"#, "demo"), Ok(false));
    assert!(cluster_listed("not json", "demo").is_err());
}

#[test]
fn fault_commands() {
    assert_eq!(
        latency_command(200, 50),
        vec!["tc", "qdisc", "add", "dev", "eth0", "root", "netem", "delay", "200ms", "50ms"]
    );
    assert_eq!(revert_latency_command(), vec!["tc", "qdisc", "del", "dev", "eth0", "root"]);
    assert_eq!(
        partition_command("10.0.0.7"),
        vec!["iptables", "-A", "OUTPUT", "-d", "10.0.0.7", "-j", "DROP"]
    );
    assert_eq!(
        revert_partition_command("10.0.0.7"),
        vec!["iptables", "-D", "OUTPUT", "-d", "10.0.0.7", "-j", "DROP"]
    );
    assert_eq!(
        debug_container_name("0123456789abcdef"),
        "heisensim-01234567"
    );
}

#[test]
fn kubectl_arguments_by_method() {
    let cmd = revert_latency_command();
    assert_eq!(
        kubectl_args(InjectMethod::Exec, "ns", "pod-1", &cmd, "unused"),
        vec!["exec", "-n", "ns", "pod-1", "--", "tc", "qdisc", "del", "dev", "eth0", "root"]
    );
    assert_eq!(
        kubectl_args(InjectMethod::Debug, "ns", "pod-1", &cmd, "heisensim-abcd1234"),
        vec![
            "debug",
            "-n",
            "ns",
            "pod-1",
            "--image=nicolaka/netshoot:latest",
            "--container=heisensim-abcd1234",
            "--target=",
            "--",
            "tc",
            "qdisc",
            "del",
            "dev",
            "eth0",
            "root"
        ]
    );
    let kind = ActiveFaultKind::Partition {
        target_ip: "10.1.1.1".to_string(),
    };
    assert_ne!(kind, ActiveFaultKind::DnsFailure);
}

fn pair(k: &str, v: &str) -> (String, String) {
    (k.to_string(), v.to_string())
}

fn pod(name: &str, labels: Vec<(String, String)>) -> PodInfo {
    PodInfo {
        name: name.to_string(),
        namespace: "ns".to_string(),
        labels,
        container_names: vec!["main".to_string()],
        is_ready: true,
        pod_ip: None,
    }
}

fn service(name: &str, selector: Vec<(String, String)>) -> ServiceInfo {
    ServiceInfo {
        name: name.to_string(),
        cluster_ip: None,
        ports: vec![80],
        selector,
    }
}

#[test]
fn pods_are_selected_by_service_selectors() {
    let services = vec![
        service("api", vec![pair("app", "api")]),
        service("db", vec![pair("app", "db"), pair("tier", "data")]),
        service("headless", vec![]),
    ];
    let pods = vec![
        pod("api-1", vec![pair("app", "api"), pair("v", "1")]),
        pod("db-1", vec![pair("app", "db")]),
        pod("db-2", vec![pair("tier", "data"), pair("app", "db")]),
        pod("web-1", vec![pair("app", "web")]),
    ];
    let names = vec!["api".to_string(), "db".to_string()];
    let picked = pods_for_services(&names, &services, pods.clone()).unwrap();
    let picked: Vec<String> = picked.into_iter().map(|p| p.name).collect();
    assert_eq!(picked, vec!["api-1", "db-2"]);
    assert!(pods_for_services(&[], &services, pods.clone()).is_none());
    assert!(pods_for_services(&["headless".to_string()], &services, pods.clone()).is_none());
    assert!(pods_for_services(&["nope".to_string()], &services, pods).is_none());
}

#[test]
fn pod_readiness_from_conditions() {
    assert!(pod_is_ready(&vec![pair("Initialized", "True"), pair("Ready", "True")]));
    assert!(!pod_is_ready(&vec![pair("Ready", "False")]));
    assert!(!pod_is_ready(&vec![]));
}

#[test]
fn test_probe_config_name_and_interval() {
    let config = ProbeConfig::Tcp(TcpProbeConfig {
        name: "test-tcp".to_string(),
        host: "localhost".to_string(),
        port: 8080,
        timeout_ms: 1000,
        interval_ms: 5000,
    });

    assert_eq!(config.name(), "test-tcp");
    assert_eq!(config.interval(), Duration::from_millis(5000));
}

#[test]
fn test_probe_result_creation() {
    let result = ProbeResult {
        success: true,
        latency: Duration::from_millis(50),
        status_code: Some(200),
        error: None,
    };
    assert!(result.success);
    assert_eq!(result.status_code, Some(200));
}

fn environment(phase: &str, header_key: Option<&str>, url: Option<&str>, external: Option<&str>) -> Environment {
    Environment {
        name: "pr-123".to_string(),
        namespace: "preview-pr-123".to_string(),
        labels: HashMap::new(),
        annotations: HashMap::new(),
        spec: EnvironmentSpec {
            source: EnvironmentSource::default(),
            deploy: EnvironmentDeploy {
                mode: "partial".to_string(),
                changed_services: vec!["api".to_string()],
                namespace: "preview-pr-123".to_string(),
            },
            routing: EnvironmentRouting {
                mode: "header".to_string(),
                header_key: header_key.map(|s| s.to_string()),
                header_value: Some("  ".to_string()),
                external_url: external.map(|s| s.to_string()),
            },
        },
        status: EnvironmentStatus {
            phase: phase.to_string(),
            url: url.map(|s| s.to_string()),
            services: vec!["api".to_string(), "db".to_string()],
        },
    }
}

#[test]
fn environment_routing_and_url() {
    let env = environment("RUNNING", None, Some(" "), Some("https://pr.example"));
    assert_eq!(env.header_key(), "x-preview-env");
    assert_eq!(env.header_value(), "pr-123");
    assert!(env.is_running());
    assert_eq!(env.url(), Some("https://pr.example"));
    assert_eq!(env.changed_services(), &["api".to_string()]);
    let env2 = environment("pending", Some("x-env"), Some("https://a"), Some("https://b"));
    assert_eq!(env2.header_key(), "x-env");
    assert!(!env2.is_running());
    assert_eq!(env2.url(), Some("https://a"));
    assert_eq!(environment("x", None, None, None).url(), None);
}

#[test]
fn diverge_context_and_progress() {
    let env = environment("Failed", Some("x-env"), None, Some("https://b"));
    let ctx = resolve_context(&env);
    assert_eq!(ctx.header_key, "x-env");
    assert_eq!(ctx.header_value, "pr-123");
    assert_eq!(ctx.services, vec!["api", "db"]);
    assert_eq!(ctx.changed_services, vec!["api"]);
    assert_eq!(ctx.namespace, "preview-pr-123");
    assert_eq!(ctx.url.as_deref(), Some("https://b"));
    assert_eq!(environment_progress(&env), EnvironmentProgress::Failed);
    assert_eq!(environment_progress(&environment("Error", None, None, None)), EnvironmentProgress::Failed);
    assert_eq!(environment_progress(&environment("running", None, None, None)), EnvironmentProgress::Running);
    assert_eq!(environment_progress(&environment("Building", None, None, None)), EnvironmentProgress::Pending);
}

#[test]
fn diverge_token_and_url_resolution() {
    assert_eq!(
        resolve_token(Some("a".to_string()), Some("b".to_string()), None),
        Some("a".to_string())
    );
    assert_eq!(resolve_token(None, Some("b".to_string()), Some("c".to_string())), Some("b".to_string()));
    assert_eq!(resolve_token(None, None, Some(" tok\n".to_string())), Some("tok".to_string()));
    assert_eq!(resolve_token(None, None, None), None);
    assert_eq!(normalize_base_url("https://d.example//"), "https://d.example");
    assert_eq!(normalize_base_url("https://d.example"), "https://d.example");
}
