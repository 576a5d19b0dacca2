use heisensim::cli::diff::{
    diff_at, event_times, fault_timeline_diff, labels_at_time, probe_outcome_at_time,
    timeline_diff, unmatched_labels, ProbeDiff,
};
use heisensim::cli::dst_run::{DstEvent, DstEventKind};
use heisensim::types::VirtualTime;

const SEC: u64 = 1_000_000_000;

fn injected(at: u64, kind: &str, target: &str) -> DstEvent {
    DstEvent {
        id: [1; 16],
        elapsed: VirtualTime(at),
        kind: DstEventKind::FaultInjected {
            fault_id: [2; 16],
            fault_kind: kind.to_string(),
            target: target.to_string(),
            duration_secs: 15,
        },
    }
}

fn probe(at: u64, name: &str, ok: bool) -> DstEvent {
    let kind = if ok {
        DstEventKind::ProbeSuccess { probe_name: name.to_string(), latency_ms: 3, status_code: 200 }
    } else {
        DstEventKind::ProbeFailed { probe_name: name.to_string(), error: "timeout".to_string() }
    };
    DstEvent { id: [3; 16], elapsed: VirtualTime(at), kind }
}

fn strings(v: &[&str]) -> Vec<String> {
    v.iter().map(|s| s.to_string()).collect()
}

#[test]
fn labels_join_kind_and_target_in_timeline_order() {
    let events = vec![
        injected(10 * SEC, "crash", "pod-1"),
        probe(10 * SEC, "http/pod-0", true),
        injected(11 * SEC, "dns", "pod-2"),
        injected(10 * SEC, "latency", "pod-0"),
    ];
    assert_eq!(labels_at_time(&events, 10 * SEC), strings(&["crash pod-1", "latency pod-0"]));
    assert_eq!(labels_at_time(&events, 12 * SEC), Vec::<String>::new());
}

#[test]
fn unmatched_labels_is_a_multiset_difference() {
    let fa = strings(&["crash pod-1", "crash pod-1", "dns pod-0"]);
    let fb = strings(&["crash pod-1", "stress pod-2"]);
    assert_eq!(unmatched_labels(&fa, &fb), strings(&["crash pod-1", "dns pod-0"]));
    assert_eq!(unmatched_labels(&fb, &fa), strings(&["stress pod-2"]));
}

#[test]
fn the_last_outcome_of_a_probe_counts() {
    let events = vec![probe(5 * SEC, "http/pod-0", true), probe(5 * SEC, "http/pod-0", false)];
    assert_eq!(probe_outcome_at_time(&events, 5 * SEC, &"http/pod-0".to_string()), Some(false));
    assert_eq!(probe_outcome_at_time(&events, 5 * SEC, &"http/pod-1".to_string()), None);
    assert_eq!(probe_outcome_at_time(&events, 6 * SEC, &"http/pod-0".to_string()), None);
}

#[test]
fn event_times_are_the_distinct_instants_of_both_runs() {
    let a = vec![probe(10 * SEC, "http/pod-0", true), probe(5 * SEC, "http/pod-0", true)];
    let b = vec![probe(5 * SEC, "http/pod-1", true), injected(20 * SEC, "crash", "pod-0")];
    assert_eq!(event_times(&a, &b), vec![5 * SEC, 10 * SEC, 20 * SEC]);
}

#[test]
fn diff_at_lists_unmatched_faults_and_differing_probes() {
    let a = vec![
        injected(10 * SEC, "crash", "pod-1"),
        probe(10 * SEC, "http/pod-1", false),
        probe(10 * SEC, "http/pod-0", true),
    ];
    let b = vec![
        probe(10 * SEC, "http/pod-0", true),
        probe(10 * SEC, "http/pod-2", true),
        probe(10 * SEC, "http/pod-1", true),
    ];
    let d = diff_at(&a, &b, 10 * SEC);
    assert_eq!(d.time, VirtualTime(10 * SEC));
    assert_eq!(d.only_a, strings(&["crash pod-1"]));
    assert!(d.only_b.is_empty());
    assert_eq!(
        d.probes,
        vec![
            ProbeDiff { probe_name: "http/pod-1".to_string(), outcome_a: Some(false), outcome_b: Some(true) },
            ProbeDiff { probe_name: "http/pod-2".to_string(), outcome_a: None, outcome_b: Some(true) },
        ]
    );
}

#[test]
fn identical_timelines_differ_nowhere() {
    let a = vec![
        injected(10 * SEC, "crash", "pod-1"),
        probe(15 * SEC, "http/pod-1", false),
    ];
    let diffs = timeline_diff(&a, &a);
    assert_eq!(diffs.len(), 2);
    for d in &diffs {
        assert!(d.only_a.is_empty() && d.only_b.is_empty() && d.probes.is_empty());
    }
    assert!(fault_timeline_diff(&a, &a).is_empty());
}

#[test]
fn fault_timeline_diff_keeps_instants_whose_faults_differ() {
    let a = vec![
        injected(10 * SEC, "latency", "pod-0"),
        injected(10 * SEC, "crash", "pod-1"),
        injected(30 * SEC, "dns", "pod-2"),
        probe(40 * SEC, "http/pod-0", false),
    ];
    let b = vec![
        injected(10 * SEC, "crash", "pod-1"),
        injected(10 * SEC, "latency", "pod-0"),
        injected(30 * SEC, "stress", "pod-2"),
        probe(40 * SEC, "http/pod-0", true),
    ];
    let diffs = fault_timeline_diff(&a, &b);
    assert_eq!(diffs.len(), 1);
    assert_eq!(diffs[0].time, VirtualTime(30 * SEC));
    assert_eq!(diffs[0].seed_a, strings(&["dns pod-2"]));
    assert_eq!(diffs[0].seed_b, strings(&["stress pod-2"]));
}

#[test]
fn fault_timeline_diff_sorts_the_labels() {
    let a = vec![
        injected(10 * SEC, "stress", "pod-0"),
        injected(10 * SEC, "crash", "pod-1"),
        injected(10 * SEC, "crash", "pod-0"),
    ];
    let b = vec![injected(10 * SEC, "crash", "pod-0")];
    let diffs = fault_timeline_diff(&a, &b);
    assert_eq!(diffs.len(), 1);
    assert_eq!(diffs[0].seed_a, strings(&["crash pod-0", "crash pod-1", "stress pod-0"]));
    assert_eq!(diffs[0].seed_b, strings(&["crash pod-0"]));
}
