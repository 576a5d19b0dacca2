use rand::rngs::StdRng;
use rand::SeedableRng;

use heisensim::k8s::chaos::{
    fault_tick_times, live_fault_plan, plan_live_fault, LiveDraws, LiveFault, LiveFaultSet,
};
use heisensim::k8s::discovery::PodInfo;

fn pod(name: &str, ready: bool, ip: Option<&str>) -> PodInfo {
    PodInfo {
        name: name.to_string(),
        namespace: "shop".to_string(),
        labels: vec![],
        container_names: vec!["app".to_string()],
        is_ready: ready,
        pod_ip: ip.map(|s| s.to_string()),
    }
}

fn kinds(v: &[&str]) -> Vec<String> {
    v.iter().map(|s| s.to_string()).collect()
}

#[test]
fn no_ready_pod_skips_the_tick() {
    let mut rng = StdRng::seed_from_u64(1);
    let pods = vec![pod("a", false, None)];
    assert_eq!(plan_live_fault(&pods, &kinds(&[]), LiveFaultSet::NetworkAndPod, &mut rng), LiveFault::NoReadyPods);
}

#[test]
fn faults_hit_ready_pods_only() {
    let pods = vec![pod("down", false, Some("10.0.0.5")), pod("up", true, Some("10.0.0.6"))];
    for seed in 0..20 {
        let mut rng = StdRng::seed_from_u64(seed);
        match plan_live_fault(&pods, &kinds(&["crash"]), LiveFaultSet::NetworkAndPod, &mut rng) {
            LiveFault::Crash { pod } => assert_eq!(pod, "up"),
            other => panic!("expected a crash, got {:?}", other),
        }
    }
}

#[test]
fn latency_and_stress_parameters_stay_in_range() {
    let pods = vec![pod("a", true, None), pod("b", true, None)];
    for seed in 0..50 {
        let mut rng = StdRng::seed_from_u64(seed);
        match plan_live_fault(&pods, &kinds(&["latency"]), LiveFaultSet::NetworkAndPod, &mut rng) {
            LiveFault::Latency { delay_ms, jitter_ms, .. } => {
                assert!((200..700).contains(&delay_ms));
                assert!((50..150).contains(&jitter_ms));
            }
            other => panic!("expected latency, got {:?}", other),
        }
        match plan_live_fault(&pods, &kinds(&["stress"]), LiveFaultSet::NetworkAndPod, &mut rng) {
            LiveFault::Stress { workers, mem_bytes, .. } => {
                assert!((1..4).contains(&workers));
                assert_eq!(mem_bytes % (1024 * 1024), 0);
                assert!((32..128).contains(&(mem_bytes / (1024 * 1024))));
            }
            other => panic!("expected stress, got {:?}", other),
        }
    }
}

#[test]
fn drawn_parameters_vary_with_the_seed() {
    let pods = vec![pod("a", true, None)];
    let mut delays = Vec::new();
    for seed in 0..30 {
        let mut rng = StdRng::seed_from_u64(seed);
        if let LiveFault::Latency { delay_ms, .. } = plan_live_fault(&pods, &kinds(&["latency"]), LiveFaultSet::NetworkAndPod, &mut rng) {
            delays.push(delay_ms);
        }
    }
    delays.sort();
    delays.dedup();
    assert!(delays.len() > 1);
}

#[test]
fn partitions_cut_off_the_first_other_ready_pod() {
    let pods = vec![pod("a", true, Some("10.0.0.1")), pod("b", false, Some("10.0.0.2")), pod("c", true, None)];
    for seed in 0..20 {
        let mut rng = StdRng::seed_from_u64(seed);
        match plan_live_fault(&pods, &kinds(&["partition"]), LiveFaultSet::NetworkAndPod, &mut rng) {
            LiveFault::Partition { pod, peer, peer_ip } if pod == "a" => {
                assert_eq!((peer.as_str(), peer_ip.as_str()), ("c", "10.0.0.1"));
            }
            LiveFault::Partition { pod, peer, peer_ip } => {
                assert_eq!(pod, "c");
                assert_eq!((peer.as_str(), peer_ip.as_str()), ("a", "10.0.0.1"));
            }
            other => panic!("expected a partition, got {:?}", other),
        }
    }
    let single = vec![pod("solo", true, Some("10.0.0.9"))];
    let mut rng = StdRng::seed_from_u64(3);
    assert_eq!(
        plan_live_fault(&single, &kinds(&["partition"]), LiveFaultSet::NetworkAndPod, &mut rng),
        LiveFault::NoPeer { pod: "solo".to_string() }
    );
}

#[test]
fn pod_faults_are_unsupported_when_off() {
    let pods = vec![pod("a", true, None)];
    let mut rng = StdRng::seed_from_u64(9);
    assert_eq!(
        plan_live_fault(&pods, &kinds(&["crash"]), LiveFaultSet::Network, &mut rng),
        LiveFault::Unsupported { pod: "a".to_string(), fault: "crash".to_string() }
    );
    assert_eq!(
        plan_live_fault(&pods, &kinds(&["dns"]), LiveFaultSet::Network, &mut rng),
        LiveFault::Dns { pod: "a".to_string() }
    );
    assert_eq!(
        plan_live_fault(&pods, &kinds(&["bogus"]), LiveFaultSet::NetworkAndPod, &mut rng),
        LiveFault::Unsupported { pod: "a".to_string(), fault: "bogus".to_string() }
    );
}

#[test]
fn the_same_seed_plans_the_same_fault() {
    let pods = vec![pod("a", true, None), pod("b", true, None), pod("c", true, None)];
    let faults = kinds(&["crash", "latency", "partition", "stress", "dns"]);
    for seed in 0..10 {
        let mut r1 = StdRng::seed_from_u64(seed);
        let mut r2 = StdRng::seed_from_u64(seed);
        assert_eq!(
            plan_live_fault(&pods, &faults, LiveFaultSet::NetworkAndPod, &mut r1),
            plan_live_fault(&pods, &faults, LiveFaultSet::NetworkAndPod, &mut r2)
        );
    }
}

#[test]
fn process_faults_are_planned_in_a_full_run() {
    let pods = vec![pod("a", true, None)];
    let mut rng = StdRng::seed_from_u64(4);
    assert_eq!(
        plan_live_fault(&pods, &kinds(&["time-warp"]), LiveFaultSet::All, &mut rng),
        LiveFault::TimeWarp { pod: "a".to_string(), container: "app".to_string(), offset_hours: 1 }
    );
    assert_eq!(
        plan_live_fault(&pods, &kinds(&["connect-error"]), LiveFaultSet::All, &mut rng),
        LiveFault::ConnectError { pod: "a".to_string(), container: "app".to_string(), duration_secs: 15 }
    );
    assert_eq!(
        plan_live_fault(&pods, &kinds(&["fd-exhaustion"]), LiveFaultSet::All, &mut rng),
        LiveFault::FdExhaustion { pod: "a".to_string(), container: "app".to_string(), duration_secs: 15 }
    );
    assert_eq!(
        plan_live_fault(&pods, &kinds(&["connect-latency"]), LiveFaultSet::All, &mut rng),
        LiveFault::ConnectLatency {
            pod: "a".to_string(),
            container: "app".to_string(),
            latency_ms: 200,
            duration_secs: 15
        }
    );
    assert_eq!(
        plan_live_fault(&pods, &kinds(&["time-warp"]), LiveFaultSet::NetworkAndPod, &mut rng),
        LiveFault::Unsupported { pod: "a".to_string(), fault: "time-warp".to_string() }
    );
    assert_eq!(
        plan_live_fault(&pods, &kinds(&["crash"]), LiveFaultSet::All, &mut rng),
        LiveFault::Crash { pod: "a".to_string() }
    );
}

#[test]
fn a_pod_without_containers_is_its_own_target() {
    let mut bare = pod("lonely", true, None);
    bare.container_names.clear();
    let draws = LiveDraws { delay_ms: 0, jitter_ms: 0, workers: 0, mem_mib: 0 };
    assert_eq!(
        live_fault_plan(&[bare], 0, "connect-error", LiveFaultSet::All, draws),
        LiveFault::ConnectError { pod: "lonely".to_string(), container: "lonely".to_string(), duration_secs: 15 }
    );
}

#[test]
fn planned_faults_carry_the_drawn_values() {
    let pods = vec![pod("a", true, None), pod("b", true, Some("10.1.2.3"))];
    let draws = LiveDraws { delay_ms: 321, jitter_ms: 77, workers: 2, mem_mib: 64 };
    assert_eq!(
        live_fault_plan(&pods, 1, "latency", LiveFaultSet::Network, draws),
        LiveFault::Latency { pod: "b".to_string(), delay_ms: 321, jitter_ms: 77 }
    );
    assert_eq!(
        live_fault_plan(&pods, 0, "stress", LiveFaultSet::NetworkAndPod, draws),
        LiveFault::Stress { pod: "a".to_string(), workers: 2, mem_bytes: 64 * 1024 * 1024 }
    );
    assert_eq!(
        live_fault_plan(&pods, 0, "stress", LiveFaultSet::Network, draws),
        LiveFault::Unsupported { pod: "a".to_string(), fault: "stress".to_string() }
    );
    assert_eq!(
        live_fault_plan(&pods, 0, "partition", LiveFaultSet::Network, draws),
        LiveFault::Partition { pod: "a".to_string(), peer: "b".to_string(), peer_ip: "10.1.2.3".to_string() }
    );
}

#[test]
fn fault_ticks_come_every_quarter_before_the_end() {
    let minute = 60_000_000_000u64;
    assert_eq!(fault_tick_times(minute), vec![15_000_000_000, 30_000_000_000, 45_000_000_000]);
    assert_eq!(fault_tick_times(5), vec![1, 2, 3, 4]);
    assert_eq!(fault_tick_times(7), vec![1, 2, 3, 4, 5, 6]);
    assert_eq!(fault_tick_times(0), Vec::<u64>::new());
}
