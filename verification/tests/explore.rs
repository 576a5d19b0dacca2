use heisensim::cli::args::ExploreStrategyArg;
use heisensim::cli::dst_run::{DstEvent, DstEventKind};
use heisensim::cli::explore::{
    bisect_failing_seed, bisect_interesting_seeds, distinct_sorted, fault_target_combos,
    SeedTriage,
};
use heisensim::fault::explorer::ExploreStrategy;
use heisensim::types::VirtualTime;

fn injected(kind: &str, target: &str) -> DstEvent {
    DstEvent {
        id: [1; 16],
        elapsed: VirtualTime(0),
        kind: DstEventKind::FaultInjected {
            fault_id: [2; 16],
            fault_kind: kind.to_string(),
            target: target.to_string(),
            duration_secs: 15,
        },
    }
}

#[test]
fn combos_are_distinct_injected_pairs_in_first_order() {
    let reverted = DstEvent {
        id: [3; 16],
        elapsed: VirtualTime(5),
        kind: DstEventKind::FaultReverted { fault_id: [2; 16] },
    };
    let events = vec![
        injected("crash", "pod-1"),
        reverted,
        injected("latency", "pod-0"),
        injected("crash", "pod-1"),
        injected("crash", "pod-0"),
    ];
    let combos = fault_target_combos(&events);
    assert_eq!(
        combos,
        vec![
            ("crash".to_string(), "pod-1".to_string()),
            ("latency".to_string(), "pod-0".to_string()),
            ("crash".to_string(), "pod-0".to_string()),
        ]
    );
    assert!(fault_target_combos(&[]).is_empty());
}

#[test]
fn triage_splits_failing_and_clean_seeds() {
    let mut t = SeedTriage::new();
    t.record(1, false);
    t.record(2, true);
    t.record(3, false);
    t.record(4, true);
    assert_eq!(t.interesting, vec![2, 4]);
    assert_eq!(t.last_known_good, Some(3));
}

#[test]
fn bisection_finds_the_threshold() {
    let runner = |s: u64| Some(s >= 37);
    assert_eq!(bisect_failing_seed(0, 100, &runner), 37);
    assert_eq!(bisect_failing_seed(40, 100, &runner), 40);
    assert_eq!(bisect_failing_seed(0, 30, &runner), 30);
    assert_eq!(bisect_failing_seed(36, 37, &runner), 37);
}

#[test]
fn bisection_treats_errors_as_failing_without_reporting_them() {
    let runner = |s: u64| if s < 50 { Some(false) } else { None };
    assert_eq!(bisect_failing_seed(0, 100, &runner), 100);
    let flaky = |s: u64| if s == 50 { None } else { Some(s >= 30) };
    let r = bisect_failing_seed(0, 100, &flaky);
    assert!(r >= 30 && r != 50);
}

#[test]
fn interesting_seeds_bisect_against_last_good() {
    let runner = |s: u64| Some(s >= 20);
    let per_seed = bisect_interesting_seeds(&[25, 40, 5, 30], Some(10), &runner);
    assert_eq!(per_seed, vec![20, 20, 5, 20]);
    assert_eq!(distinct_sorted(&per_seed), vec![5, 20]);
    let none_good = bisect_interesting_seeds(&[8], None, &runner);
    assert_eq!(none_good, vec![8]);
}

#[test]
fn distinct_sorted_orders_and_dedups() {
    assert_eq!(distinct_sorted(&[5, 3, 5, 9, 1, 3]), vec![1, 3, 5, 9]);
    assert!(distinct_sorted(&[]).is_empty());
}

#[test]
fn strategy_choice_maps_to_explorer_strategy() {
    assert_eq!(ExploreStrategyArg::Sequential.strategy(), ExploreStrategy::Sequential);
    assert_eq!(ExploreStrategyArg::Random.strategy(), ExploreStrategy::Random);
    assert_eq!(ExploreStrategyArg::Coverage.strategy(), ExploreStrategy::Coverage);
}
