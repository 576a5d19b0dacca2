use heisensim::cli::dst::{
    fault_plan, fault_type_from_name, fault_types_from_names, failure_message, pod_name,
    probe_name, probe_verdict, DstError, LatencyParams, ProbeFailure, ProbeVerdict, SimFault,
};
use heisensim::cli::dst_run::{
    latency_params_from, probe_event_kind, timeline_hash, DstConfig, DstEvent, DstEventKind, DstResult,
    DstRun, DstStep,
};
use heisensim::fault::scheduler::FaultType;
use heisensim::types::{NodeId, VirtualTime};
use rand::Rng;
use std::time::Duration;

/// Runs a simulation to its end, drawing each delay between faults from the
/// fault scheduler's generator as 10 to 30 fractional seconds.
fn run(config: DstConfig) -> Result<DstResult, DstError> {
    assert!(config.fits());
    let mut sim = DstRun::start(config)?;
    loop {
        match sim.step() {
            DstStep::Continue => {}
            DstStep::FaultDelayNeeded(mut rng) => {
                let secs: f64 = rng.random_range(10.0..30.0);
                let millis = Duration::from_secs_f64(secs).as_millis() as u64;
                sim.resume(rng, millis);
            }
            DstStep::Finished => break,
        }
    }
    Ok(sim.into_result())
}

fn test_config(seed: u64) -> DstConfig {
    DstConfig {
        seed,
        duration: VirtualTime::from_secs(300),
        warmup: VirtualTime::from_secs(30),
        faults: vec![
            "crash".to_string(),
            "latency".to_string(),
            "partition".to_string(),
        ],
        pod_count: 3,
        probe_interval: VirtualTime::from_secs(5),
    }
}

fn single_fault_config(fault: &str) -> DstConfig {
    DstConfig {
        seed: 42,
        duration: VirtualTime::from_secs(120),
        warmup: VirtualTime::from_secs(10),
        faults: vec![fault.to_string()],
        pod_count: 2,
        probe_interval: VirtualTime::from_secs(2),
    }
}

fn timestamp(e: &DstEvent) -> chrono::DateTime<chrono::Utc> {
    let epoch: chrono::DateTime<chrono::Utc> = "2025-01-01T00:00:00Z".parse().unwrap();
    epoch + chrono::Duration::nanoseconds(e.elapsed.0 as i64)
}

#[test]
fn test_dst_determinism() {
    let r1 = run(test_config(42)).unwrap();
    let r2 = run(test_config(42)).unwrap();

    assert_eq!(r1.hash, r2.hash, "Same seed must produce same hash");
    assert_eq!(r1.events.len(), r2.events.len());

    for (a, b) in r1.events.iter().zip(r2.events.iter()) {
        assert_eq!(a.id, b.id, "Event IDs must match");
        assert_eq!(a.elapsed, b.elapsed, "Elapsed times must match");
        assert_eq!(timestamp(a), timestamp(b), "Timestamps must match");
    }
}

#[test]
fn test_dst_different_seeds_diverge() {
    let r1 = run(test_config(42)).unwrap();
    let r2 = run(test_config(43)).unwrap();

    assert_ne!(
        r1.hash, r2.hash,
        "Different seeds must produce different hashes"
    );
}

#[test]
fn test_dst_time_compression() {
    let result = run(test_config(42)).unwrap();
    assert!(!result.events.is_empty());
    assert!(result.total_faults > 0);
    let last_event = result.events.last().unwrap();
    assert!(
        last_event.elapsed.as_secs() >= 299,
        "Simulation should span ~300s of virtual time, got {}s",
        last_event.elapsed.as_secs()
    );
}

#[test]
fn test_dst_events_have_faults_and_probes() {
    let result = run(test_config(42)).unwrap();

    let has_fault = result
        .events
        .iter()
        .any(|e| matches!(e.kind, DstEventKind::FaultInjected { .. }));
    let has_probe = result.events.iter().any(|e| {
        matches!(
            e.kind,
            DstEventKind::ProbeSuccess { .. } | DstEventKind::ProbeFailed { .. }
        )
    });
    let has_revert = result
        .events
        .iter()
        .any(|e| matches!(e.kind, DstEventKind::FaultReverted { .. }));

    assert!(has_fault, "Should have fault injections");
    assert!(has_probe, "Should have probe events");
    assert!(has_revert, "Should have fault reverts");
}

#[test]
fn test_dst_partition_causes_probe_failure() {
    let result = run(single_fault_config("partition")).unwrap();
    let has_failure = result.events.iter().any(|e| {
        matches!(e.kind, DstEventKind::ProbeFailed { ref error, .. } if error.contains("partitioned"))
    });

    assert!(has_failure, "Partition fault should cause probe failures");
}

#[test]
fn test_dst_no_faults() {
    let config = DstConfig {
        seed: 42,
        duration: VirtualTime::from_secs(60),
        warmup: VirtualTime::from_secs(10),
        faults: Vec::new(),
        pod_count: 2,
        probe_interval: VirtualTime::from_secs(5),
    };

    let result = run(config).unwrap();
    assert_eq!(result.total_faults, 0);
    assert_eq!(result.total_failures, 0);
    let all_success = result
        .events
        .iter()
        .all(|e| !matches!(e.kind, DstEventKind::ProbeFailed { .. }));
    assert!(all_success, "With no faults, all probes should succeed");
}

#[test]
fn test_dst_hash_stable() {
    let hashes: Vec<u64> = (0..10)
        .map(|_| run(test_config(0xBEEF)).unwrap().hash)
        .collect();
    assert!(
        hashes.windows(2).all(|w| w[0] == w[1]),
        "Hash must be stable across runs"
    );
}

#[test]
fn test_dst_zero_pods_errors() {
    let config = DstConfig {
        seed: 42,
        duration: VirtualTime::from_secs(60),
        warmup: VirtualTime::from_secs(10),
        faults: vec!["crash".to_string()],
        pod_count: 0,
        probe_interval: VirtualTime::from_secs(5),
    };
    let err = run(config).unwrap_err();
    assert!(
        err.message().contains("pod_count must be at least 1"),
        "Expected pod_count error, got: {}",
        err.message()
    );
}

#[test]
fn test_dst_warmup_exceeds_duration() {
    let config = DstConfig {
        seed: 42,
        duration: VirtualTime::from_secs(30),
        warmup: VirtualTime::from_secs(60),
        faults: vec!["crash".to_string()],
        pod_count: 2,
        probe_interval: VirtualTime::from_secs(5),
    };
    let result = run(config).unwrap();
    assert_eq!(result.total_faults, 0);
}

#[test]
fn test_dst_crash_fault_causes_probe_failure() {
    let result = run(single_fault_config("crash")).unwrap();
    let has_crash_failure = result.events.iter().any(|e| {
        matches!(e.kind, DstEventKind::ProbeFailed { ref error, .. } if error.contains("crashed"))
    });
    assert!(has_crash_failure, "Crash fault should cause probe failures");
}

#[test]
fn test_dst_dns_fault_causes_probe_failure() {
    let result = run(single_fault_config("dns")).unwrap();
    let has_dns_failure = result.events.iter().any(
        |e| matches!(e.kind, DstEventKind::ProbeFailed { ref error, .. } if error.contains("DNS")),
    );
    assert!(has_dns_failure, "DNS fault should cause probe failures");
}

#[test]
fn test_dst_latency_fault_increases_latency() {
    let result = run(single_fault_config("latency")).unwrap();
    let high_latency_probes: Vec<_> = result
        .events
        .iter()
        .filter(|e| {
            matches!(&e.kind, DstEventKind::ProbeSuccess { latency_ms, .. } if *latency_ms > 100)
        })
        .collect();
    assert!(
        !high_latency_probes.is_empty(),
        "Latency fault should cause elevated probe latency"
    );
}

#[test]
fn test_dst_stress_fault_affects_probes() {
    let result = run(single_fault_config("stress")).unwrap();
    let high_latency_probes: Vec<_> = result
        .events
        .iter()
        .filter(|e| {
            matches!(&e.kind, DstEventKind::ProbeSuccess { latency_ms, .. } if *latency_ms > 50)
        })
        .collect();
    assert!(
        !high_latency_probes.is_empty(),
        "Stress fault should cause elevated probe latency"
    );
}

#[test]
fn test_dst_eviction_causes_probe_failure() {
    let result = run(single_fault_config("eviction")).unwrap();
    let has_failure = result.events.iter().any(|e| {
        matches!(e.kind, DstEventKind::ProbeFailed { ref error, .. } if error.contains("crashed"))
    });
    assert!(
        has_failure,
        "Eviction fault should cause probe failures (treated as crash)"
    );
}

#[test]
fn test_dst_overlapping_faults() {
    let config = DstConfig {
        seed: 100,
        duration: VirtualTime::from_secs(60),
        warmup: VirtualTime::from_secs(5),
        faults: vec![
            "crash".to_string(),
            "latency".to_string(),
            "partition".to_string(),
            "dns".to_string(),
            "stress".to_string(),
        ],
        pod_count: 2,
        probe_interval: VirtualTime::from_secs(2),
    };
    let result = run(config.clone()).unwrap();
    assert!(result.total_faults > 0);
    assert!(!result.events.is_empty());
    let r2 = run(config).unwrap();
    assert_eq!(result.hash, r2.hash);
}

#[test]
fn test_dst_unknown_fault_errors() {
    let config = DstConfig {
        seed: 42,
        duration: VirtualTime::from_secs(60),
        warmup: VirtualTime::from_secs(10),
        faults: vec!["typo_fault".to_string()],
        pod_count: 2,
        probe_interval: VirtualTime::from_secs(5),
    };
    let err = run(config).unwrap_err();
    assert!(
        err.message().contains("Unknown fault type"),
        "Expected unknown fault error, got: {}",
        err.message()
    );
}

#[test]
fn dst_zero_probe_interval_errors() {
    let mut config = single_fault_config("crash");
    config.probe_interval = VirtualTime(0);
    let err = run(config).unwrap_err();
    assert_eq!(err, DstError::ZeroProbeInterval);
    assert_eq!(err.message(), "probe_interval must be greater than 0");
}

#[test]
fn dst_unknown_fault_message_names_the_first_unknown() {
    let names = vec![
        "crash".to_string(),
        "flood".to_string(),
        "typo".to_string(),
    ];
    let err = fault_types_from_names(&names).unwrap_err();
    assert_eq!(
        err.message(),
        "Unknown fault type 'flood'. Supported: crash, latency, partition, stress, dns, eviction"
    );
}

#[test]
fn dst_fault_names_map_to_types() {
    assert_eq!(fault_type_from_name("crash"), Some(FaultType::Crash));
    assert_eq!(
        fault_type_from_name("latency"),
        Some(FaultType::Latency { delay_ms: 0, jitter_ms: 0 })
    );
    assert_eq!(fault_type_from_name("partition"), Some(FaultType::Partition));
    assert_eq!(
        fault_type_from_name("stress"),
        Some(FaultType::Stress { cpu_workers: 0, mem_bytes: 0 })
    );
    assert_eq!(fault_type_from_name("dns"), Some(FaultType::Dns));
    assert_eq!(fault_type_from_name("eviction"), Some(FaultType::Eviction));
    assert_eq!(fault_type_from_name("Crash"), None);
}

#[test]
fn dst_fault_plans() {
    assert_eq!(fault_plan(FaultType::Crash), ("crash", 15));
    assert_eq!(fault_plan(FaultType::Latency { delay_ms: 0, jitter_ms: 0 }), ("latency", 15));
    assert_eq!(fault_plan(FaultType::Partition), ("partition", 20));
    assert_eq!(fault_plan(FaultType::Stress { cpu_workers: 0, mem_bytes: 0 }), ("stress", 10));
    assert_eq!(fault_plan(FaultType::Dns), ("dns", 10));
    assert_eq!(fault_plan(FaultType::Eviction), ("eviction", 15));
}

fn fault(id: u8, fault_type: FaultType, node: u64, latency: Option<(u32, u32)>) -> SimFault {
    let mut bytes = [0u8; 16];
    bytes[15] = id;
    SimFault {
        id: bytes,
        fault_type,
        target_node: NodeId(node),
        partition_id: None,
        latency_params: latency.map(|(d, j)| LatencyParams { delay_ms: d, jitter_ms: j }),
    }
}

#[test]
fn dst_probe_verdict_precedence() {
    let target = NodeId(1);
    let crash = fault(1, FaultType::Crash, 1, None);
    let dns = fault(2, FaultType::Dns, 1, None);
    assert_eq!(
        probe_verdict(&[dns, crash], target, true),
        ProbeVerdict::Fails(ProbeFailure::Crashed)
    );
    assert_eq!(
        probe_verdict(&[dns], target, true),
        ProbeVerdict::Fails(ProbeFailure::Partitioned)
    );
    assert_eq!(
        probe_verdict(&[dns], target, false),
        ProbeVerdict::Fails(ProbeFailure::DnsBlocked)
    );
    assert_eq!(probe_verdict(&[crash], NodeId(2), false), ProbeVerdict::Succeeds(None));
}

#[test]
fn dst_probe_verdict_latency_order() {
    let target = NodeId(1);
    let lat_a = fault(1, FaultType::Latency { delay_ms: 0, jitter_ms: 0 }, 1, Some((300, 60)));
    let lat_b = fault(2, FaultType::Latency { delay_ms: 0, jitter_ms: 0 }, 1, Some((500, 70)));
    let stress = fault(3, FaultType::Stress { cpu_workers: 0, mem_bytes: 0 }, 1, None);
    let slow = |d, j| ProbeVerdict::Succeeds(Some(LatencyParams { delay_ms: d, jitter_ms: j }));
    assert_eq!(probe_verdict(&[lat_a, lat_b], target, false), slow(500, 70));
    assert_eq!(probe_verdict(&[lat_a, stress], target, false), slow(300, 60));
    assert_eq!(probe_verdict(&[stress, lat_b], target, false), slow(500, 70));
    assert_eq!(probe_verdict(&[stress], target, false), slow(100, 200));
    let bare = fault(4, FaultType::Latency { delay_ms: 0, jitter_ms: 0 }, 1, None);
    assert_eq!(probe_verdict(&[bare], target, false), slow(200, 100));
}

#[test]
fn dst_failure_messages_and_names() {
    assert_eq!(failure_message(ProbeFailure::Crashed), "connection refused (pod crashed)");
    assert_eq!(failure_message(ProbeFailure::Partitioned), "network unreachable (partitioned)");
    assert_eq!(failure_message(ProbeFailure::DnsBlocked), "DNS resolution failed");
    assert_eq!(pod_name(7), "pod-7");
    assert_eq!(probe_name(12), "http/pod-12");
}

#[test]
fn dst_timeline_is_complete_and_ordered() {
    let result = run(test_config(7)).unwrap();
    let first = result.events.first().unwrap();
    assert_eq!(first.elapsed, VirtualTime(0));
    assert_eq!(
        first.kind,
        DstEventKind::SimulationStarted { seed: 7, duration_secs: 300 }
    );
    let last = result.events.last().unwrap();
    assert_eq!(last.elapsed, VirtualTime::from_secs(300));
    assert_eq!(
        last.kind,
        DstEventKind::SimulationEnded {
            total_faults: result.total_faults,
            total_failures: result.total_failures
        }
    );
    assert!(result.events.windows(2).all(|w| w[0].elapsed <= w[1].elapsed));
    let injected = result
        .events
        .iter()
        .filter(|e| matches!(e.kind, DstEventKind::FaultInjected { .. }))
        .count();
    let failed = result
        .events
        .iter()
        .filter(|e| matches!(e.kind, DstEventKind::ProbeFailed { .. }))
        .count();
    assert_eq!(injected, result.total_faults);
    assert_eq!(failed, result.total_failures);
    assert_eq!(timeline_hash(&result.events), result.hash);
}

#[test]
fn dst_ids_are_version_4_uuids() {
    let result = run(test_config(3)).unwrap();
    for e in &result.events {
        let id = uuid::Uuid::from_bytes(e.id);
        assert_eq!(id.get_version_num(), 4);
        assert_eq!(id.get_variant(), uuid::Variant::RFC4122);
    }
}

#[test]
fn dst_faults_last_their_planned_time() {
    let result = run(test_config(11)).unwrap();
    for e in &result.events {
        if let DstEventKind::FaultInjected { fault_kind, duration_secs, .. } = &e.kind {
            let expected = match fault_kind.as_str() {
                "partition" => 20,
                "crash" | "latency" | "eviction" => 15,
                _ => 10,
            };
            assert_eq!(*duration_secs, expected);
        }
    }
}

#[test]
fn dst_event_messages() {
    let started = DstEventKind::SimulationStarted { seed: 1, duration_secs: 5 };
    assert_eq!(started.message(), "🚀 Simulation started");
    let ended = DstEventKind::SimulationEnded { total_faults: 3, total_failures: 12 };
    assert_eq!(ended.message(), "🏁 Simulation ended (3 faults, 12 failures)");
    let injected = DstEventKind::FaultInjected {
        fault_id: [0; 16],
        fault_kind: "crash".to_string(),
        target: "pod-1".to_string(),
        duration_secs: 15,
    };
    assert_eq!(injected.message(), "💥 crash → pod-1");
    let reverted = DstEventKind::FaultReverted { fault_id: [0; 16] };
    assert_eq!(reverted.message(), "♻️  Fault reverted");
    let ok = DstEventKind::ProbeSuccess {
        probe_name: "http/pod-0".to_string(),
        latency_ms: 23,
        status_code: 200,
    };
    assert_eq!(ok.message(), "✅ http/pod-0 (23ms)");
    let failed = DstEventKind::ProbeFailed {
        probe_name: "http/pod-0".to_string(),
        error: "DNS resolution failed".to_string(),
    };
    assert_eq!(failed.message(), "❌ http/pod-0 — DNS resolution failed");
}

#[test]
fn dst_hash_depends_on_every_event() {
    let result = run(test_config(5)).unwrap();
    let mut changed = result.events.clone();
    changed.pop();
    assert_ne!(timeline_hash(&changed), result.hash);
    let expected = xxhash_rust::xxh64::xxh64(&[], 0);
    assert_eq!(timeline_hash(&[]), expected);
}

#[test]
fn dst_config_fit() {
    assert!(test_config(1).fits());
    let mut too_long = test_config(1);
    too_long.duration = VirtualTime(u64::MAX);
    assert!(!too_long.fits());
}

fn framed(out: &mut Vec<u8>, id: [u8; 16], nanos: u64, json: &str) {
    out.extend_from_slice(&id);
    out.extend_from_slice(&(nanos as u128).to_le_bytes());
    out.extend_from_slice(&(json.len() as u32).to_le_bytes());
    out.extend_from_slice(json.as_bytes());
}

#[test]
fn dst_hash_frames_each_event_kind_as_json() {
    let fault_id = [
        0x12, 0x34, 0x56, 0x78, 0x9a, 0xbc, 0x4d, 0xef, 0x80, 0x01, 0x23, 0x45, 0x67, 0x89, 0xab, 0xcd,
    ];
    let error = "say \"hi\"\n\t— ok\u{1}";
    let events = vec![
        DstEvent {
            id: [1; 16],
            elapsed: VirtualTime(0),
            kind: DstEventKind::SimulationStarted { seed: 66, duration_secs: 60 },
        },
        DstEvent {
            id: [2; 16],
            elapsed: VirtualTime(5_000_000_000),
            kind: DstEventKind::FaultInjected {
                fault_id,
                fault_kind: "latency".to_string(),
                target: "pod-1".to_string(),
                duration_secs: 15,
            },
        },
        DstEvent {
            id: [3; 16],
            elapsed: VirtualTime(6_000_000_000),
            kind: DstEventKind::ProbeFailed { probe_name: "http/pod-0".to_string(), error: error.to_string() },
        },
        DstEvent {
            id: [4; 16],
            elapsed: VirtualTime(7_000_000_000),
            kind: DstEventKind::ProbeSuccess { probe_name: "http/pod-1".to_string(), latency_ms: 23, status_code: 200 },
        },
        DstEvent {
            id: [5; 16],
            elapsed: VirtualTime(20_000_000_000),
            kind: DstEventKind::FaultReverted { fault_id },
        },
        DstEvent {
            id: [6; 16],
            elapsed: VirtualTime(60_000_000_000),
            kind: DstEventKind::SimulationEnded { total_faults: 1, total_failures: 1 },
        },
    ];
    let uuid_text = uuid::Uuid::from_bytes(fault_id).hyphenated().to_string();
    assert_eq!(uuid_text, "12345678-9abc-4def-8001-23456789abcd");
    let secs = serde_json::to_string(&60.0f64).unwrap();
    assert_eq!(secs, "60.0");
    let quoted = |s: &str| serde_json::to_string(s).unwrap();
    let mut data = Vec::new();
    framed(&mut data, [1; 16], 0, &format!("{{\"SimulationStarted\":{{\"seed\":66,\"duration_secs\":{}}}}}", secs));
    framed(
        &mut data,
        [2; 16],
        5_000_000_000,
        &format!(
            "{{\"FaultInjected\":{{\"fault_id\":\"{}\",\"fault_kind\":{},\"target\":{},\"duration_secs\":{}}}}}",
            uuid_text,
            quoted("latency"),
            quoted("pod-1"),
            serde_json::to_string(&15.0f64).unwrap()
        ),
    );
    framed(
        &mut data,
        [3; 16],
        6_000_000_000,
        &format!(
            "{{\"ProbeFailed\":{{\"probe_name\":{},\"error\":{},\"latency_ms\":null}}}}",
            quoted("http/pod-0"),
            quoted(error)
        ),
    );
    framed(
        &mut data,
        [4; 16],
        7_000_000_000,
        "{\"ProbeSuccess\":{\"probe_name\":\"http/pod-1\",\"latency_ms\":23,\"status_code\":200}}",
    );
    framed(&mut data, [5; 16], 20_000_000_000, &format!("{{\"FaultReverted\":{{\"fault_id\":\"{}\"}}}}", uuid_text));
    framed(
        &mut data,
        [6; 16],
        60_000_000_000,
        "{\"SimulationEnded\":{\"total_faults\":1,\"total_failures\":1}}",
    );
    assert_eq!(timeline_hash(&events), xxhash_rust::xxh64::xxh64(&data, 0));
}

#[test]
fn dst_no_faults_when_the_warmup_covers_the_run() {
    let mut config = test_config(11);
    config.warmup = config.duration;
    let result = run(config).unwrap();
    assert_eq!(result.total_faults, 0);
    assert_eq!(result.total_failures, 0);
    assert!(result.events.iter().all(|e| !matches!(
        e.kind,
        DstEventKind::FaultInjected { .. } | DstEventKind::ProbeFailed { .. }
    )));
    let mut longer = test_config(11);
    longer.warmup = VirtualTime::from_secs(400);
    assert_eq!(run(longer).unwrap().total_faults, 0);
}

#[test]
fn probe_events_follow_the_drawn_latencies() {
    let slow = LatencyParams { delay_ms: 300, jitter_ms: 80 };
    assert_eq!(
        probe_event_kind(2, ProbeVerdict::Succeeds(Some(slow)), 7, 333),
        DstEventKind::ProbeSuccess { probe_name: "http/pod-2".to_string(), latency_ms: 340, status_code: 200 }
    );
    assert_eq!(
        probe_event_kind(0, ProbeVerdict::Succeeds(None), 7, 333),
        DstEventKind::ProbeSuccess { probe_name: "http/pod-0".to_string(), latency_ms: 7, status_code: 200 }
    );
    assert_eq!(
        probe_event_kind(1, ProbeVerdict::Fails(ProbeFailure::Partitioned), 7, 333),
        DstEventKind::ProbeFailed {
            probe_name: "http/pod-1".to_string(),
            error: "network unreachable (partitioned)".to_string()
        }
    );
}

#[test]
fn latency_faults_slow_by_the_drawn_amounts() {
    assert_eq!(latency_params_from(1234, 567), LatencyParams { delay_ms: 434, jitter_ms: 117 });
    assert_eq!(latency_params_from(u32::MAX, 0), LatencyParams { delay_ms: 495, jitter_ms: 50 });
}
