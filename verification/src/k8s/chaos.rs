//! The faults of a run against a live cluster: when the fault ticks come,
//! and at each tick which ready pod is hit, by which fault, with which
//! parameters. Listing the pods, injecting, and reverting are left to the
//! caller.

use vstd::prelude::*;
use rand::rngs::StdRng;
use crate::k8s::discovery::PodInfo;
use crate::rng::{std_rng_index_below, std_rng_range_inclusive, std_rng_range_u32};
use crate::text::same_str;

verus! {

/// The fault to inject at a tick.
#[derive(Debug, Clone, PartialEq, Eq)]
pub enum LiveFault {
    /// No pod is ready: the tick is skipped.
    NoReadyPods,
    /// Delete the pod.
    Crash { pod: String },
    /// Evict the pod (honoring its disruption budget).
    Eviction { pod: String },
    /// Delay the pod's traffic.
    Latency { pod: String, delay_ms: u32, jitter_ms: u32 },
    /// Cut the pod off from `peer`, reached at `peer_ip`.
    Partition { pod: String, peer: String, peer_ip: String },
    /// A partition with no other ready pod to cut off: skipped.
    NoPeer { pod: String },
    /// Load the pod's CPU and memory.
    Stress { pod: String, workers: u32, mem_bytes: u64 },
    /// Block the pod's DNS.
    Dns { pod: String },
    /// Shift the clock of the process in `container` by `offset_hours`.
    TimeWarp { pod: String, container: String, offset_hours: u64 },
    /// Make the connections of the process in `container` fail.
    ConnectError { pod: String, container: String, duration_secs: u64 },
    /// Exhaust the file descriptors of the process in `container`.
    FdExhaustion { pod: String, container: String, duration_secs: u64 },
    /// Delay the connections of the process in `container`.
    ConnectLatency { pod: String, container: String, latency_ms: u32, duration_secs: u64 },
    /// A fault kind this run does not inject: skipped.
    Unsupported { pod: String, fault: String },
}

/// The interval between fault ticks of a run lasting `duration_nanos`: a
/// quarter of it, rounded down to the nanosecond.
pub open spec fn tick_interval(duration_nanos: u64) -> nat {
    (duration_nanos / 4) as nat
}

/// When the faults of a live run come, in nanoseconds from its start: a
/// tick every quarter of the run, the first one quarter in, as long as a
/// tick falls before the end (so three ticks when the duration divides by
/// four, and four otherwise). A run shorter than four nanoseconds, whose
/// interval would be zero, is left out.
pub fn fault_tick_times(duration_nanos: u64) -> (v: Vec<u64>)
    requires
        duration_nanos == 0 || duration_nanos >= 4,
    ensures
        forall|k: int| 0 <= k < v@.len() ==> v@[k] == (k + 1) * tick_interval(duration_nanos),
        forall|k: int| 0 <= k < v@.len() ==> v@[k] < duration_nanos,
        duration_nanos > 0 ==> (v@.len() + 1) * tick_interval(duration_nanos) >= duration_nanos,
        duration_nanos == 0 ==> v@.len() == 0,
{
    let interval = duration_nanos / 4;
    let ghost i = tick_interval(duration_nanos);
    let mut v: Vec<u64> = Vec::new();
    let mut elapsed: u64 = 0;
    assert(v@.len() * i == 0);
    while elapsed < duration_nanos
        invariant
            duration_nanos >= 4 || duration_nanos == 0,
            i == tick_interval(duration_nanos),
            interval == i,
            elapsed == v@.len() * i,
            duration_nanos == 0 ==> v@.len() == 0,
            duration_nanos > 0 ==> elapsed < duration_nanos,
            forall|k: int| 0 <= k < v@.len() ==> v@[k] == (k + 1) * i,
            forall|k: int| 0 <= k < v@.len() ==> v@[k] < duration_nanos,
        decreases duration_nanos - elapsed,
    {
        assert(interval >= 1);
        assert((v@.len() + 1) * i == v@.len() * i + i) by (nonlinear_arith);
        if duration_nanos - elapsed <= interval {
            return v;
        }
        elapsed = elapsed + interval;
        v.push(elapsed);
    }
    v
}

/// The pods that are ready, in order.
pub open spec fn ready_pods(pods: Seq<PodInfo>) -> Seq<PodInfo> {
    pods.filter(|p: PodInfo| p.is_ready)
}

/// The first of the pods whose name is not `name`.
pub open spec fn first_peer(ready: Seq<PodInfo>, name: Seq<char>) -> Option<PodInfo>
    decreases ready.len(),
{
    if ready.len() == 0 {
        None
    } else if ready[0].name@ != name {
        Some(ready[0])
    } else {
        first_peer(ready.skip(1), name)
    }
}

/// The address a partition cuts: the peer's, or `10.0.0.1` when it has none.
pub open spec fn peer_address(peer: PodInfo) -> Seq<char> {
    match peer.pod_ip {
        Some(ip) => ip@,
        None => "10.0.0.1"@,
    }
}

/// Which fault kinds a kind of run injects.
#[derive(Debug, Clone, Copy, PartialEq, Eq, Structural)]
pub enum LiveFaultSet {
    /// Network faults only: latency, partition and DNS.
    Network,
    /// Network faults, and crash, eviction and stress of pods.
    NetworkAndPod,
    /// All of these, and the process-level faults: time warp, connect
    /// error, file-descriptor exhaustion and connect latency.
    All,
}

/// The values drawn for a fault's parameters: a latency fault's delay and
/// jitter, a stress fault's workers and memory in MiB.
#[derive(Debug, Clone, Copy, PartialEq, Eq)]
pub struct LiveDraws {
    pub delay_ms: u32,
    pub jitter_ms: u32,
    pub workers: u32,
    pub mem_mib: u64,
}

/// The container a process-level fault aims at: the pod's first, or the
/// pod's name when it lists none.
pub open spec fn target_container(target: PodInfo) -> Seq<char> {
    if target.container_names@.len() > 0 {
        target.container_names@[0]@
    } else {
        target.name@
    }
}

/// `r` is fault `kind` planned for `target`, one of the `ready` pods, with
/// the drawn values `d`: crash, eviction and stress only when the set holds
/// pod faults and the process-level kinds only when it holds all (otherwise
/// those kinds are unsupported); a latency fault with the drawn delay and
/// jitter; a partition from the first other ready pod; stress by the drawn
/// workers and MiB of memory; a time warp of one hour; a connect error or
/// descriptor exhaustion for 15 s, a connect latency of 200 ms for 15 s;
/// unknown kinds unsupported.
pub open spec fn planned_with(
    r: LiveFault,
    target: PodInfo,
    kind: Seq<char>,
    ready: Seq<PodInfo>,
    set: LiveFaultSet,
    d: LiveDraws,
) -> bool {
    let name = target.name@;
    let pod_faults = set !is Network;
    let process_faults = set is All;
    if pod_faults && kind == "crash"@ {
        r matches LiveFault::Crash { pod } && pod@ == name
    } else if pod_faults && kind == "eviction"@ {
        r matches LiveFault::Eviction { pod } && pod@ == name
    } else if kind == "latency"@ {
        r matches LiveFault::Latency { pod, delay_ms, jitter_ms } && pod@ == name && delay_ms == d.delay_ms
            && jitter_ms == d.jitter_ms
    } else if kind == "partition"@ {
        match first_peer(ready, name) {
            Some(peer) => r matches LiveFault::Partition { pod, peer: p, peer_ip } && pod@ == name && p@ == peer.name@
                && peer_ip@ == peer_address(peer),
            None => r matches LiveFault::NoPeer { pod } && pod@ == name,
        }
    } else if pod_faults && kind == "stress"@ {
        r matches LiveFault::Stress { pod, workers, mem_bytes } && pod@ == name && workers == d.workers && mem_bytes
            == d.mem_mib * 1048576
    } else if kind == "dns"@ {
        r matches LiveFault::Dns { pod } && pod@ == name
    } else if process_faults && kind == "time-warp"@ {
        r matches LiveFault::TimeWarp { pod, container, offset_hours } && pod@ == name && container@
            == target_container(target) && offset_hours == 1
    } else if process_faults && kind == "connect-error"@ {
        r matches LiveFault::ConnectError { pod, container, duration_secs } && pod@ == name && container@
            == target_container(target) && duration_secs == 15
    } else if process_faults && kind == "fd-exhaustion"@ {
        r matches LiveFault::FdExhaustion { pod, container, duration_secs } && pod@ == name && container@
            == target_container(target) && duration_secs == 15
    } else if process_faults && kind == "connect-latency"@ {
        r matches LiveFault::ConnectLatency { pod, container, latency_ms, duration_secs } && pod@ == name
            && container@ == target_container(target) && latency_ms == 200 && duration_secs == 15
    } else {
        r matches LiveFault::Unsupported { pod, fault } && pod@ == name && fault@ == kind
    }
}

/// The drawn values are in the ranges a run draws them from: a delay of 200
/// to 699 ms, a jitter of 50 to 149 ms, 1 to 3 workers, 32 to 127 MiB.
pub open spec fn draws_in_range(d: LiveDraws) -> bool {
    &&& 200 <= d.delay_ms < 700
    &&& 50 <= d.jitter_ms < 150
    &&& 1 <= d.workers < 4
    &&& 32 <= d.mem_mib < 128
}

/// `r` is fault `kind` planned for `target` with some values drawn in their
/// ranges.
pub open spec fn planned(r: LiveFault, target: PodInfo, kind: Seq<char>, ready: Seq<PodInfo>, set: LiveFaultSet) -> bool {
    exists|d: LiveDraws| draws_in_range(d) && #[trigger] planned_with(r, target, kind, ready, set, d)
}

/// The positions of the ready pods, in order.
fn ready_positions(pods: &[PodInfo]) -> (r: Vec<usize>)
    ensures
        forall|k: int| 0 <= k < r@.len() ==> r@[k] < pods@.len(),
        r@.map_values(|i: usize| pods@[i as int]) == ready_pods(pods@),
{
    let ghost f = |p: PodInfo| p.is_ready;
    let mut r: Vec<usize> = Vec::new();
    let mut i: usize = 0;
    proof {
        reveal(Seq::filter);
        assert(pods@.take(0) =~= Seq::<PodInfo>::empty());
        assert(r@.map_values(|i: usize| pods@[i as int]) =~= pods@.take(0).filter(f));
    }
    while i < pods.len()
        invariant
            i <= pods@.len(),
            f == (|p: PodInfo| p.is_ready),
            forall|k: int| 0 <= k < r@.len() ==> r@[k] < i,
            r@.map_values(|i: usize| pods@[i as int]) == pods@.take(i as int).filter(f),
        decreases pods@.len() - i,
    {
        let ghost before = r@;
        proof {
            reveal(Seq::filter);
            assert(pods@.take(i + 1).drop_last() =~= pods@.take(i as int));
            assert(pods@.take(i + 1).last() == pods@[i as int]);
        }
        if pods[i].is_ready {
            r.push(i);
            assert(r@.map_values(|i: usize| pods@[i as int]) =~= before.map_values(|i: usize| pods@[i as int]).push(
                pods@[i as int],
            ));
        }
        i = i + 1;
    }
    assert(pods@.take(pods@.len() as int) =~= pods@);
    r
}

/// The first ready pod (by position) whose name is not `name`.
fn find_peer(pods: &[PodInfo], ready: &Vec<usize>, name: &String) -> (r: Option<usize>)
    requires
        forall|k: int| 0 <= k < ready@.len() ==> ready@[k] < pods@.len(),
    ensures
        match r {
            Some(i) => i < pods@.len() && first_peer(ready@.map_values(|i: usize| pods@[i as int]), name@) == Some(
                pods@[i as int],
            ),
            None => first_peer(ready@.map_values(|i: usize| pods@[i as int]), name@) is None,
        },
{
    let ghost all = ready@.map_values(|i: usize| pods@[i as int]);
    let mut k: usize = 0;
    assert(all.skip(0) =~= all);
    while k < ready.len()
        invariant
            k <= ready@.len(),
            forall|m: int| 0 <= m < ready@.len() ==> ready@[m] < pods@.len(),
            all == ready@.map_values(|i: usize| pods@[i as int]),
            first_peer(all.skip(k as int), name@) == first_peer(all, name@),
        decreases ready@.len() - k,
    {
        proof {
            assert(all.skip(k as int).skip(1) =~= all.skip(k + 1));
            assert(all.skip(k as int)[0] == pods@[ready@[k as int] as int]);
        }
        let j = ready[k];
        if !same_str(pods[j].name.as_str(), name.as_str()) {
            return Some(j);
        }
        k = k + 1;
    }
    None
}

/// The fault `kind` planned for the ready pod at position `target` of
/// `pods`, with the values `d` drawn for its parameters.
pub fn live_fault_plan(pods: &[PodInfo], target: usize, kind: &str, set: LiveFaultSet, d: LiveDraws) -> (r: LiveFault)
    requires
        target < pods@.len(),
        d.mem_mib * 1048576 <= u64::MAX,
    ensures
        planned_with(r, pods@[target as int], kind@, ready_pods(pods@), set, d),
{
    let ready = ready_positions(pods);
    let t = &pods[target];
    let pod = t.name.clone();
    let pod_faults = match set {
        LiveFaultSet::Network => false,
        _ => true,
    };
    let process_faults = match set {
        LiveFaultSet::All => true,
        _ => false,
    };
    let container = if t.container_names.len() > 0 {
        t.container_names[0].clone()
    } else {
        t.name.clone()
    };
    if pod_faults && same_str(kind, "crash") {
        LiveFault::Crash { pod }
    } else if pod_faults && same_str(kind, "eviction") {
        LiveFault::Eviction { pod }
    } else if same_str(kind, "latency") {
        LiveFault::Latency { pod, delay_ms: d.delay_ms, jitter_ms: d.jitter_ms }
    } else if same_str(kind, "partition") {
        match find_peer(pods, &ready, &t.name) {
            Some(j) => {
                let peer_ip = match &pods[j].pod_ip {
                    Some(ip) => ip.clone(),
                    None => "10.0.0.1".to_string(),
                };
                LiveFault::Partition { pod, peer: pods[j].name.clone(), peer_ip }
            },
            None => LiveFault::NoPeer { pod },
        }
    } else if pod_faults && same_str(kind, "stress") {
        LiveFault::Stress { pod, workers: d.workers, mem_bytes: d.mem_mib * 1024 * 1024 }
    } else if same_str(kind, "dns") {
        LiveFault::Dns { pod }
    } else if process_faults && same_str(kind, "time-warp") {
        LiveFault::TimeWarp { pod, container, offset_hours: 1 }
    } else if process_faults && same_str(kind, "connect-error") {
        LiveFault::ConnectError { pod, container, duration_secs: 15 }
    } else if process_faults && same_str(kind, "fd-exhaustion") {
        LiveFault::FdExhaustion { pod, container, duration_secs: 15 }
    } else if process_faults && same_str(kind, "connect-latency") {
        LiveFault::ConnectLatency { pod, container, latency_ms: 200, duration_secs: 15 }
    } else {
        LiveFault::Unsupported { pod, fault: kind.to_string() }
    }
}

/// The fault kind a planned fault is of: its variant's name, `partition`
/// for a partition skipped for want of a peer, and the kind itself for an
/// unsupported one (nothing for a skipped tick).
pub open spec fn fault_kind_of(r: LiveFault) -> Seq<char> {
    match r {
        LiveFault::NoReadyPods => Seq::empty(),
        LiveFault::Crash { .. } => "crash"@,
        LiveFault::Eviction { .. } => "eviction"@,
        LiveFault::Latency { .. } => "latency"@,
        LiveFault::Partition { .. } => "partition"@,
        LiveFault::NoPeer { .. } => "partition"@,
        LiveFault::Stress { .. } => "stress"@,
        LiveFault::Dns { .. } => "dns"@,
        LiveFault::TimeWarp { .. } => "time-warp"@,
        LiveFault::ConnectError { .. } => "connect-error"@,
        LiveFault::FdExhaustion { .. } => "fd-exhaustion"@,
        LiveFault::ConnectLatency { .. } => "connect-latency"@,
        LiveFault::Unsupported { fault, .. } => fault@,
    }
}

/// The pod a planned fault is aimed at (nothing for a skipped tick).
pub open spec fn fault_pod_of(r: LiveFault) -> Seq<char> {
    match r {
        LiveFault::NoReadyPods => Seq::empty(),
        LiveFault::Crash { pod } => pod@,
        LiveFault::Eviction { pod } => pod@,
        LiveFault::Latency { pod, .. } => pod@,
        LiveFault::Partition { pod, .. } => pod@,
        LiveFault::NoPeer { pod } => pod@,
        LiveFault::Stress { pod, .. } => pod@,
        LiveFault::Dns { pod } => pod@,
        LiveFault::TimeWarp { pod, .. } => pod@,
        LiveFault::ConnectError { pod, .. } => pod@,
        LiveFault::FdExhaustion { pod, .. } => pod@,
        LiveFault::ConnectLatency { pod, .. } => pod@,
        LiveFault::Unsupported { pod, .. } => pod@,
    }
}

/// A fault planned as kind `kind` for `target` is of that kind and aimed at
/// that pod, whatever the set and the drawn values.
pub proof fn planned_fault_is_of_its_kind(
    r: LiveFault,
    target: PodInfo,
    kind: Seq<char>,
    ready: Seq<PodInfo>,
    set: LiveFaultSet,
    d: LiveDraws,
)
    requires
        planned_with(r, target, kind, ready, set, d),
    ensures
        fault_kind_of(r) == kind,
        fault_pod_of(r) == target.name@,
{
}

/// Plans the fault of a tick whose draws so far picked the `t`-th ready pod
/// and the `fi`-th fault kind: the kind's parameters are drawn next (a
/// latency fault's delay and jitter; a stress fault's workers and memory,
/// when the set holds pod faults), and nothing else is. Every configured
/// kind is planned for the index that picks it.
pub fn plan_drawn_fault(
    pods: &[PodInfo],
    faults: &[String],
    set: LiveFaultSet,
    t: usize,
    fi: usize,
    rng: &mut StdRng,
) -> (r: LiveFault)
    requires
        t < ready_pods(pods@).len(),
        fi < faults@.len(),
    ensures
        planned(r, ready_pods(pods@)[t as int], faults@[fi as int]@, ready_pods(pods@), set),
        fault_kind_of(r) == faults@[fi as int]@,
        fault_pod_of(r) == ready_pods(pods@)[t as int].name@,
{
    let ready = ready_positions(pods);
    let ghost rp = ready_pods(pods@);
    proof {
        assert(ready@.map_values(|i: usize| pods@[i as int]).len() == ready@.len());
    }
    let target = ready[t];
    assert(rp[t as int] == pods@[target as int]);
    let kind = faults[fi].as_str();
    let mut d = LiveDraws { delay_ms: 200, jitter_ms: 50, workers: 1, mem_mib: 32 };
    let pod_faults = match set {
        LiveFaultSet::Network => false,
        _ => true,
    };
    if same_str(kind, "latency") {
        d.delay_ms = std_rng_range_u32(rng, 200, 700);
        d.jitter_ms = std_rng_range_u32(rng, 50, 150);
    } else if pod_faults && same_str(kind, "stress") {
        d.workers = std_rng_range_u32(rng, 1, 4);
        d.mem_mib = std_rng_range_inclusive(rng, 32, 127);
    }
    let r = live_fault_plan(pods, target, kind, set, d);
    assert(planned_with(r, rp[t as int], faults@[fi as int]@, rp, set, d));
    assert(planned(r, rp[t as int], faults@[fi as int]@, rp, set));
    proof {
        planned_fault_is_of_its_kind(r, rp[t as int], faults@[fi as int]@, rp, set, d);
    }
    r
}

/// Plans the fault of one tick: among the ready pods, a target is drawn
/// first, then a fault kind among `faults`, then the kind's parameters, as
/// `plan_drawn_fault` says for the two indices drawn.
pub fn plan_live_fault(pods: &[PodInfo], faults: &[String], set: LiveFaultSet, rng: &mut StdRng) -> (r: LiveFault)
    requires
        ready_pods(pods@).len() > 0 ==> faults@.len() > 0,
    ensures
        r is NoReadyPods <==> ready_pods(pods@).len() == 0,
        ready_pods(pods@).len() > 0 ==> exists|i: int, j: int|
            0 <= i < ready_pods(pods@).len() && 0 <= j < faults@.len() && planned(
                r,
                #[trigger] ready_pods(pods@)[i],
                #[trigger] faults@[j]@,
                ready_pods(pods@),
                set,
            ) && fault_kind_of(r) == faults@[j]@ && fault_pod_of(r) == ready_pods(pods@)[i].name@,
{
    let ready = ready_positions(pods);
    let ghost rp = ready_pods(pods@);
    if ready.len() == 0 {
        return LiveFault::NoReadyPods;
    }
    proof {
        assert(ready@.map_values(|i: usize| pods@[i as int]).len() == ready@.len());
    }
    let t = std_rng_index_below(rng, ready.len());
    let fi = std_rng_index_below(rng, faults.len());
    let r = plan_drawn_fault(pods, faults, set, t, fi, rng);
    assert(planned(r, rp[t as int], faults@[fi as int]@, rp, set));
    r
}

} // verus!
