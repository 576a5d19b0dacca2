use heisensim::fault::explorer::{
    bisect_seed, bisect_seed_probes, ExplorationResult, ExplorationStrategy, ExploreStrategy, Explorer,
    StrategicExplorer,
};
use heisensim::fault::injector::FaultInjector;
use heisensim::fault::scheduler::{FaultScheduler, FaultType};
use std::collections::HashSet;
use std::time::Duration;

#[test]
fn test_exploration_strategy() {
    let _s1 = ExplorationStrategy::Random;
    let _s2 = ExplorationStrategy::CoverageGuided;
    let _s3 = ExplorationStrategy::Guided;
}

#[test]
fn test_explorer_new() {
    let explorer = Explorer::new(ExplorationStrategy::Random);
    assert_eq!(explorer.coverage_bitmap.len(), 65536);
    assert_eq!(explorer.iteration_count, 0);
    assert!(explorer.best_seeds.is_empty());
}

#[test]
fn explorer_bitmap_starts_clear() {
    let explorer = Explorer::new(ExplorationStrategy::CoverageGuided);
    assert!(explorer.coverage_bitmap.iter().all(|b| *b == 0));
    let r = ExplorationResult {
        seed: 3,
        coverage_edges_hit: 10,
        properties_violated: 0,
        duration: Duration::from_millis(5),
    };
    assert_eq!(r.clone().seed, 3);
}

#[test]
fn test_explore_strategy_sequential() {
    let mut explorer = StrategicExplorer::new(ExploreStrategy::Sequential, 10);
    assert_eq!(explorer.next_seed(), 10);
    assert_eq!(explorer.next_seed(), 11);
    assert_eq!(explorer.next_seed(), 12);
}

#[test]
fn test_explore_strategy_random() {
    let mut explorer = StrategicExplorer::new(ExploreStrategy::Random, 10);
    let s1 = explorer.next_seed();
    let s2 = explorer.next_seed();
    assert_ne!(s1, s2);
}

#[test]
fn test_explore_strategy_coverage() {
    let mut explorer = StrategicExplorer::new(ExploreStrategy::Coverage, 10);
    assert_eq!(explorer.next_seed(), 10);

    let combos = vec![("crash".to_string(), "pod-1".to_string())];
    explorer.record_coverage(combos);

    assert_eq!(explorer.next_seed(), 11);

    let combos = Vec::new();
    explorer.record_coverage(combos);

    let offset = 31;
    let seed = explorer.next_seed();
    assert_eq!(seed, 12 + offset);
    assert_eq!(
        explorer.coverage_summary(),
        "Coverage: 1 unique (fault×pod) combinations tested"
    );
}

#[test]
fn coverage_recording_keeps_each_combination_once() {
    let mut explorer = StrategicExplorer::new(ExploreStrategy::Coverage, 0);
    let combo = || ("latency".to_string(), "api".to_string());
    explorer.record_coverage(vec![combo(), combo()]);
    assert_eq!(explorer.seen_combinations.len(), 1);
    assert_eq!(explorer.coverage_offset, 0);
    explorer.record_coverage(vec![combo()]);
    assert_eq!(explorer.seen_combinations.len(), 1);
    assert_eq!(explorer.coverage_offset, 7);
}

#[test]
fn coverage_is_not_recorded_by_other_strategies() {
    let mut explorer = StrategicExplorer::new(ExploreStrategy::Sequential, 0);
    explorer.record_coverage(vec![("a".to_string(), "b".to_string())]);
    assert!(explorer.seen_combinations.is_empty());
    assert_eq!(explorer.coverage_summary(), "Coverage: 0 unique (fault×pod) combinations tested");
}

#[test]
fn test_bisect() {
    let bad = 100;
    let good = 0;
    let runner = |seed| seed < 42;
    let min_failing = bisect_seed(good, bad, runner);
    assert_eq!(min_failing, 42);
}

#[test]
fn bisect_clamps_to_the_range() {
    assert_eq!(bisect_seed(10, 20, |s| s < 5), 10);
    assert_eq!(bisect_seed(10, 20, |s| s < 50), 20);
    assert_eq!(bisect_seed(0, 0, |_| false), 0);
    assert_eq!(bisect_seed(5, 2, |_| true), 2);
}

#[test]
fn test_fault_injector_new() {
    let _injector = FaultInjector::new();
    let _injector2 = FaultInjector::default();
}

#[test]
fn test_new() {
    let scheduler = FaultScheduler::new(42, vec![], vec![], "default".to_string());
    assert_eq!(scheduler.seed, 42);
    assert_eq!(scheduler.namespace, "default");
}

#[test]
fn test_next_fault_empty() {
    let mut scheduler =
        FaultScheduler::new(42, vec![], vec!["pod-1".to_string()], "ns".to_string());
    assert!(scheduler.next_fault().is_none());

    let mut scheduler = FaultScheduler::new(42, vec![FaultType::Crash], vec![], "ns".to_string());
    assert!(scheduler.next_fault().is_none());
}

#[test]
fn test_next_fault_valid() {
    let mut scheduler = FaultScheduler::new(
        42,
        vec![FaultType::Crash],
        vec!["pod-1".to_string()],
        "ns".to_string(),
    );
    let fault = scheduler.next_fault().unwrap();
    assert_eq!(fault.fault_type, FaultType::Crash);
    assert_eq!(fault.target_pod, "pod-1");
    assert_eq!(fault.namespace, "ns");
}

#[test]
fn test_determinism_same_seed() {
    let mut s1 = FaultScheduler::new(
        100,
        vec![FaultType::Crash, FaultType::Partition],
        vec!["p1".to_string(), "p2".to_string()],
        "ns".to_string(),
    );
    let mut s2 = FaultScheduler::new(
        100,
        vec![FaultType::Crash, FaultType::Partition],
        vec!["p1".to_string(), "p2".to_string()],
        "ns".to_string(),
    );

    for _ in 0..10 {
        let f1 = s1.next_fault().unwrap();
        let f2 = s2.next_fault().unwrap();
        assert_eq!(f1.fault_type, f2.fault_type);
        assert_eq!(f1.target_pod, f2.target_pod);
    }
}

#[test]
fn test_determinism_different_seed() {
    let mut s1 = FaultScheduler::new(
        100,
        vec![FaultType::Crash, FaultType::Partition],
        vec!["p1".to_string(), "p2".to_string()],
        "ns".to_string(),
    );
    let mut s2 = FaultScheduler::new(
        200,
        vec![FaultType::Crash, FaultType::Partition],
        vec!["p1".to_string(), "p2".to_string()],
        "ns".to_string(),
    );

    let mut all_same = true;
    for _ in 0..10 {
        let f1 = s1.next_fault().unwrap();
        let f2 = s2.next_fault().unwrap();
        if f1.fault_type != f2.fault_type || f1.target_pod != f2.target_pod {
            all_same = false;
            break;
        }
    }
    assert!(!all_same);
}

#[test]
fn test_all_faults_and_pods_selected() {
    let faults = vec![
        FaultType::Crash,
        FaultType::Partition,
        FaultType::Latency {
            delay_ms: 10,
            jitter_ms: 5,
        },
    ];
    let pods = vec!["p1".to_string(), "p2".to_string(), "p3".to_string()];
    let mut s = FaultScheduler::new(42, faults.clone(), pods.clone(), "ns".to_string());

    let mut seen_faults = HashSet::new();
    let mut seen_pods = HashSet::new();

    for _ in 0..100 {
        let f = s.next_fault().unwrap();
        if !seen_faults.iter().any(|x| x == &f.fault_type) {
            seen_faults.insert(f.fault_type.clone());
        }
        seen_pods.insert(f.target_pod);
    }

    assert_eq!(seen_faults.len(), 3);
    assert_eq!(seen_pods.len(), 3);
}

#[test]
fn bisect_probes_stay_in_range_and_within_the_log_bound() {
    let (r, probes) = bisect_seed_probes(0, 100, |s| s < 42);
    assert_eq!(r, 42);
    assert!(!probes.is_empty());
    assert!(probes.len() <= 7);
    assert!(probes.iter().all(|&(s, passed)| s <= 100 && passed == (s < 42)));
    assert_eq!(probes[0], (50, false));
    let (r, probes) = bisect_seed_probes(7, 7, |_| true);
    assert_eq!((r, probes), (7, vec![(7, true)]));
    let (r, probes) = bisect_seed_probes(9, 3, |_| true);
    assert_eq!((r, probes), (3, vec![]));
}
