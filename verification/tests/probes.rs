use std::time::Duration;

use heisensim::k8s::probe_scraper::{
    convert_probe, resolve_port, scrape_probes, ContainerProbes, ExecAction, GrpcAction,
    HttpGetAction, KubeProbe, PodProbes, PortRef, TcpSocketAction,
};
use heisensim::probe::{
    contains_text, http_result, probe_event, tcp_result, ConnectOutcome, HttpMethod, ProbeConfig,
    ProbeEvent, ProbeResult,
};

fn bare_probe() -> KubeProbe {
    KubeProbe {
        http_get: None,
        tcp_socket: None,
        grpc: None,
        exec_action: None,
        period_seconds: None,
        timeout_seconds: None,
    }
}

fn http_probe(port: PortRef, path: Option<&str>, scheme: Option<&str>) -> KubeProbe {
    KubeProbe {
        http_get: Some(HttpGetAction {
            port,
            path: path.map(|p| p.to_string()),
            scheme: scheme.map(|s| s.to_string()),
        }),
        ..bare_probe()
    }
}

#[test]
fn ports_resolve_by_number_or_decimal_name() {
    assert_eq!(resolve_port(&PortRef::Number(8080)), 8080);
    assert_eq!(resolve_port(&PortRef::Number(65536 + 81)), 81);
    assert_eq!(resolve_port(&PortRef::Name("9090".to_string())), 9090);
    assert_eq!(resolve_port(&PortRef::Name("+443".to_string())), 443);
    assert_eq!(resolve_port(&PortRef::Name("http".to_string())), 80);
    assert_eq!(resolve_port(&PortRef::Name("70000".to_string())), 80);
    assert_eq!(resolve_port(&PortRef::Name(String::new())), 80);
}

#[test]
fn http_probes_become_get_urls_on_the_pod() {
    let p = http_probe(PortRef::Number(8080), Some("/healthz"), Some("HTTPS"));
    match convert_probe(&p, "web/app/readiness", "10.0.0.7", 10_000, 5_000) {
        Some(ProbeConfig::Http(c)) => {
            assert_eq!(c.name, "web/app/readiness");
            assert_eq!(c.url, "https://10.0.0.7:8080/healthz");
            assert_eq!(c.method, HttpMethod::Get);
            assert_eq!(c.expected_status, 200);
            assert_eq!(c.interval_ms, 10_000);
            assert_eq!(c.timeout_ms, 5_000);
            assert!(c.headers.is_none());
        }
        other => panic!("expected an HTTP probe, got {:?}", other),
    }
    let defaults = http_probe(PortRef::Name("web".to_string()), None, None);
    match convert_probe(&defaults, "p", "10.0.0.8", 1, 2) {
        Some(ProbeConfig::Http(c)) => assert_eq!(c.url, "http://10.0.0.8:80/"),
        other => panic!("expected an HTTP probe, got {:?}", other),
    }
}

#[test]
fn http_comes_before_the_other_checks() {
    let mut p = http_probe(PortRef::Number(80), None, None);
    p.tcp_socket = Some(TcpSocketAction { port: PortRef::Number(81) });
    assert!(matches!(convert_probe(&p, "p", "1.2.3.4", 1, 1), Some(ProbeConfig::Http(_))));
}

#[test]
fn tcp_grpc_and_exec_probes_convert() {
    let tcp = KubeProbe { tcp_socket: Some(TcpSocketAction { port: PortRef::Number(5432) }), ..bare_probe() };
    match convert_probe(&tcp, "db", "10.1.1.1", 3, 4) {
        Some(ProbeConfig::Tcp(c)) => {
            assert_eq!(c.host, "10.1.1.1");
            assert_eq!(c.port, 5432);
            assert_eq!((c.interval_ms, c.timeout_ms), (3, 4));
        }
        other => panic!("expected a TCP probe, got {:?}", other),
    }
    let grpc = KubeProbe {
        grpc: Some(GrpcAction { port: 50051, service: Some("health".to_string()) }),
        ..bare_probe()
    };
    match convert_probe(&grpc, "rpc", "10.1.1.2", 3, 4) {
        Some(ProbeConfig::Grpc(c)) => {
            assert_eq!(c.address, "10.1.1.2:50051");
            assert_eq!(c.service.as_deref(), Some("health"));
        }
        other => panic!("expected a gRPC probe, got {:?}", other),
    }
    let exec = KubeProbe {
        exec_action: Some(ExecAction { command: Some(vec!["cat".to_string(), "/tmp/ok".to_string()]) }),
        ..bare_probe()
    };
    match convert_probe(&exec, "cmd", "10.1.1.3", 3, 4) {
        Some(ProbeConfig::Exec(c)) => assert_eq!(c.command, vec!["cat".to_string(), "/tmp/ok".to_string()]),
        other => panic!("expected an exec probe, got {:?}", other),
    }
    let no_command = KubeProbe { exec_action: Some(ExecAction { command: None }), ..bare_probe() };
    match convert_probe(&no_command, "cmd", "10.1.1.3", 3, 4) {
        Some(ProbeConfig::Exec(c)) => assert!(c.command.is_empty()),
        other => panic!("expected an exec probe, got {:?}", other),
    }
    assert!(convert_probe(&bare_probe(), "none", "10.1.1.4", 3, 4).is_none());
}

#[test]
fn scraping_names_probes_and_skips_pods_without_address_or_spec() {
    let mut ready = http_probe(PortRef::Number(8080), Some("/ready"), None);
    ready.period_seconds = Some(3);
    let live = KubeProbe { tcp_socket: Some(TcpSocketAction { port: PortRef::Number(8080) }), timeout_seconds: Some(1), ..bare_probe() };
    let container = ContainerProbes {
        name: "app".to_string(),
        readiness_probe: Some(ready),
        liveness_probe: Some(live),
    };
    let empty = ContainerProbes { name: "side".to_string(), readiness_probe: Some(bare_probe()), liveness_probe: None };
    let pods = vec![
        PodProbes { name: Some("web-0".to_string()), pod_ip: None, containers: Some(vec![container.clone()]) },
        PodProbes { name: Some("web-1".to_string()), pod_ip: Some("10.0.0.2".to_string()), containers: None },
        PodProbes {
            name: None,
            pod_ip: Some("10.0.0.3".to_string()),
            containers: Some(vec![container, empty]),
        },
    ];
    let configs = scrape_probes(&pods);
    let names: Vec<&str> = configs.iter().map(|c| c.name()).collect();
    assert_eq!(names, vec!["unknown/app/readiness", "unknown/app/liveness"]);
    match &configs[0] {
        ProbeConfig::Http(c) => {
            assert_eq!(c.url, "http://10.0.0.3:8080/ready");
            assert_eq!((c.interval_ms, c.timeout_ms), (3_000, 5_000));
        }
        other => panic!("expected an HTTP probe, got {:?}", other),
    }
    match &configs[1] {
        ProbeConfig::Tcp(c) => assert_eq!((c.interval_ms, c.timeout_ms), (10_000, 1_000)),
        other => panic!("expected a TCP probe, got {:?}", other),
    }
}

#[test]
fn http_results_follow_the_expected_status() {
    let ok = http_result(200, 200, Duration::from_millis(12));
    assert!(ok.success);
    assert_eq!(ok.status_code, Some(200));
    assert!(ok.error.is_none());
    let bad = http_result(503, 200, Duration::from_millis(12));
    assert!(!bad.success);
    assert_eq!(bad.status_code, Some(503));
    assert_eq!(bad.error.as_deref(), Some("Unexpected status: 503"));
}

#[test]
fn tcp_results_name_the_failure() {
    assert!(tcp_result(ConnectOutcome::Connected, Duration::from_millis(1)).success);
    let refused = tcp_result(ConnectOutcome::Failed("connection refused".to_string()), Duration::from_millis(1));
    assert_eq!(refused.error.as_deref(), Some("Connection failed: connection refused"));
    let slow = tcp_result(ConnectOutcome::TimedOut, Duration::from_millis(1));
    assert_eq!(slow.error.as_deref(), Some("Connection timed out"));
    assert_eq!(slow.status_code, None);
}

#[test]
fn contains_text_finds_infixes() {
    assert!(contains_text("request timed out after 5s", "timed out"));
    assert!(contains_text("abc", ""));
    assert!(!contains_text("time out", "timeout"));
    assert!(!contains_text("ab", "abc"));
}

#[test]
fn results_become_success_timeout_or_failure_events() {
    let ok = ProbeResult { success: true, latency: Duration::from_millis(42), status_code: Some(200), error: None };
    assert_eq!(probe_event(&ok), ProbeEvent::Success { latency_ms: 42, status_code: Some(200) });
    let slow = tcp_result(ConnectOutcome::TimedOut, Duration::from_millis(5000));
    assert_eq!(probe_event(&slow), ProbeEvent::Timeout { timeout_ms: 5000 });
    let grpc_slow = ProbeResult { success: false, latency: Duration::from_millis(7), status_code: None, error: Some("deadline: timeout".to_string()) };
    assert_eq!(probe_event(&grpc_slow), ProbeEvent::Timeout { timeout_ms: 7 });
    let bad = http_result(500, 200, Duration::from_millis(9));
    assert_eq!(
        probe_event(&bad),
        ProbeEvent::Failed { error: "Unexpected status: 500".to_string(), latency_ms: Some(9) }
    );
    let silent = ProbeResult { success: false, latency: Duration::from_millis(1), status_code: None, error: None };
    assert_eq!(probe_event(&silent), ProbeEvent::Failed { error: String::new(), latency_ms: Some(1) });
}
