//! The discrete-event loop of a deterministic simulation run, one timer at a
//! time.
//!
//! A run starts with a probe timer for every pod, a first fault timer at the
//! end of the warm-up (when faults are configured) and an end timer at the
//! run's duration. Each step fires the next timer: a probe records its
//! success or failure and is rescheduled, a fault timer injects a fault and
//! schedules its revert, a revert lifts the fault, and the end timer closes
//! the timeline. After a fault timer the delay to the next one is drawn by the
//! caller from the fault scheduler's generator, which the step hands out, and
//! given back with [`DstRun::resume`].

use vstd::prelude::*;
use rand::rngs::StdRng;
use crate::cli::dst::{
    all_known, failure_message, failure_text, fault_duration_secs, fault_kind_text, fault_plan,
    fault_types_from_names, fault_types_of, id_before, latency_params_for, place_fault, placed_by_id,
    pod_name, pod_name_text, probe_name, probe_name_text, probe_verdict, probe_verdict_of,
    sorted_by_id, take_fault, uuid_hyphenated, uuid_v4_from_random, hex_digit_char, hyphenated_text, DstError, LatencyParams, ProbeVerdict, SimFault,
    CONTROL_PRIORITY, FAULT_PRIORITY, PROBE_PRIORITY,
};
use crate::clock::{later, Timer, VirtualClock};
use crate::fault::scheduler::{FaultScheduler, FaultType};
use crate::net::{any_separates, Partition, VirtualNetwork};
use crate::rng::{
    std_rng_from_seed, std_rng_next_u64, std_rng_random_bytes16, std_rng_random_u32,
    std_rng_range_inclusive,
};
use crate::seed::SimSeed;
use crate::text::{chars_of, decimal_chars, push_char, push_decimal, push_str, same_str};
use vstd::bytes::{spec_u128_to_le_bytes, spec_u32_to_le_bytes, u128_to_le_bytes, u32_to_le_bytes};
use vstd::slice::slice_to_vec;
use vstd::utf8::encode_utf8;
use crate::types::{NodeId, VirtualTime, NANOS_PER_MILLI, NANOS_PER_SEC};

verus! {

/// The longest delay to the next fault that the caller may hand back, in
/// milliseconds (the delay is drawn below 30 seconds).
pub const MAX_FAULT_DELAY_MILLIS: u64 = 30_000;

/// How far apart the first probes of successive pods are, in milliseconds.
pub const PROBE_STAGGER_MILLIS: u64 = 100;

/// Configuration of a simulation run.
#[derive(Debug, Clone)]
pub struct DstConfig {
    /// Seed of every random draw of the run.
    pub seed: u64,
    /// Virtual length of the run.
    pub duration: VirtualTime,
    /// Virtual time before the first fault.
    pub warmup: VirtualTime,
    /// Names of the fault kinds to inject.
    pub faults: Vec<String>,
    /// Number of simulated pods.
    pub pod_count: usize,
    /// Virtual time between two probes of a pod.
    pub probe_interval: VirtualTime,
}

/// The run's clock arithmetic stays within 64-bit nanoseconds: a probe or a
/// fault timer set at the end of the run, and the staggered first probes.
pub open spec fn config_fits(c: DstConfig) -> bool {
    &&& c.duration.0 + c.probe_interval.0 <= u64::MAX
    &&& c.duration.0 + MAX_FAULT_DELAY_MILLIS * NANOS_PER_MILLI <= u64::MAX
    &&& c.probe_interval.0 + PROBE_STAGGER_MILLIS * NANOS_PER_MILLI * c.pod_count <= u64::MAX
}

/// What happened at one instant of a run.
#[derive(Debug, Clone, PartialEq, Eq)]
pub enum DstEventKind {
    /// The run began.
    SimulationStarted { seed: u64, duration_secs: u64 },
    /// A probe got an answer.
    ProbeSuccess { probe_name: String, latency_ms: u64, status_code: u16 },
    /// A probe failed.
    ProbeFailed { probe_name: String, error: String },
    /// A fault was injected for `duration_secs` seconds.
    FaultInjected { fault_id: [u8; 16], fault_kind: String, target: String, duration_secs: u64 },
    /// A fault was lifted.
    FaultReverted { fault_id: [u8; 16] },
    /// The run ended.
    SimulationEnded { total_faults: usize, total_failures: usize },
}

impl DstEventKind {
    /// Whether this is a failed probe.
    pub fn is_probe_failed(&self) -> (b: bool)
        ensures
            b == (*self is ProbeFailed),
    {
        match self {
            DstEventKind::ProbeFailed { .. } => true,
            _ => false,
        }
    }
}

/// An event of the timeline, with its id (the bytes of a version-4 UUID) and
/// the virtual time at which it happened.
#[derive(Debug, Clone)]
pub struct DstEvent {
    pub id: [u8; 16],
    pub elapsed: VirtualTime,
    pub kind: DstEventKind,
}

/// The number of failed probes in a timeline.
pub open spec fn count_failed(s: Seq<DstEvent>) -> nat
    decreases s.len(),
{
    if s.len() == 0 {
        0
    } else {
        count_failed(s.drop_last()) + if s.last().kind is ProbeFailed {
            1nat
        } else {
            0nat
        }
    }
}

/// The number of injected faults in a timeline.
pub open spec fn count_injected(s: Seq<DstEvent>) -> nat
    decreases s.len(),
{
    if s.len() == 0 {
        0
    } else {
        count_injected(s.drop_last()) + if s.last().kind is FaultInjected {
            1nat
        } else {
            0nat
        }
    }
}

/// The events are listed in the order of their virtual times.
pub open spec fn in_time_order(s: Seq<DstEvent>) -> bool {
    forall|i: int, j: int| 0 <= i <= j < s.len() ==> (#[trigger] s[i]).elapsed.0 <= (#[trigger] s[j]).elapsed.0
}

/// A timer of the run.
#[derive(Debug, Clone, Copy, PartialEq, Eq)]
pub enum SimTimer {
    /// Probe the pod with this index.
    Probe { pod_idx: usize },
    /// Inject the next fault.
    ScheduleFault,
    /// Lift the fault with this id.
    RevertFault { fault_id: [u8; 16] },
    /// End the run.
    End,
}

/// Where a run is.
#[derive(Debug, Clone, Copy, PartialEq, Eq, Structural)]
pub enum DstPhase {
    /// Timers are firing.
    Running,
    /// A fault timer fired; the delay to the next one is awaited.
    AwaitingDelay,
    /// The timeline is closed.
    Finished,
}

/// What a step asks of its caller.
pub enum DstStep {
    /// Nothing: step again.
    Continue,
    /// Draw the delay to the next fault from this generator (the fault
    /// scheduler's), then hand both back to [`DstRun::resume`].
    FaultDelayNeeded(StdRng),
    /// The run is over.
    Finished,
}

/// The result of a finished run.
#[derive(Debug)]
pub struct DstResult {
    pub events: Vec<DstEvent>,
    pub hash: u64,
    pub seed: u64,
    pub total_faults: usize,
    pub total_failures: usize,
}

/// A timer whose payload fits the configuration: probes of existing pods,
/// the end at the run's duration, fault timers only when faults are
/// configured.
pub open spec fn timer_ok(t: Timer<SimTimer>, c: DstConfig) -> bool {
    &&& (t.payload matches SimTimer::Probe { pod_idx } ==> pod_idx < c.pod_count)
    &&& (t.payload is End ==> t.wake_time == c.duration)
    &&& (t.payload is ScheduleFault ==> c.faults@.len() > 0 && (c.warmup.0 >= c.duration.0
        ==> t.wake_time.0 >= c.duration.0))
}

/// A run that injects nothing: no fault kind is configured, or the warm-up
/// lasts at least the whole run, so that no fault timer fires before the end.
pub open spec fn quiet_run(c: DstConfig) -> bool {
    c.faults@.len() == 0 || c.warmup.0 >= c.duration.0
}

/// Every timer of `s` fits the configuration.
pub open spec fn timers_ok(s: Seq<Timer<SimTimer>>, c: DstConfig) -> bool {
    forall|i: int| 0 <= i < s.len() ==> timer_ok(#[trigger] s[i], c)
}

/// Some timer of `s` ends the run.
pub open spec fn holds_end(s: Seq<Timer<SimTimer>>) -> bool {
    exists|i: int| 0 <= i < s.len() && (#[trigger] s[i]).payload is End
}

/// Some timer of `s` has this wake time, priority and payload.
pub open spec fn has_timer(s: Seq<Timer<SimTimer>>, wake: VirtualTime, priority: u8, payload: SimTimer) -> bool {
    exists|i: int|
        0 <= i < s.len() && (#[trigger] s[i]).wake_time == wake && s[i].priority == priority
            && s[i].payload == payload
}

/// Every latency fault carries a delay of 200 to 699 ms and a jitter of 50
/// to 149 ms.
pub open spec fn params_in_range(s: Seq<SimFault>) -> bool {
    forall|i: int|
        0 <= i < s.len() && (#[trigger] s[i]).fault_type is Latency ==> (s[i].latency_params matches Some(
            p,
        ) && 200 <= p.delay_ms < 700 && 50 <= p.jitter_ms < 150)
}

/// The first event of the timeline of a run with configuration `c`.
pub open spec fn start_event_ok(e: DstEvent, c: DstConfig) -> bool {
    &&& e.elapsed == VirtualTime(0)
    &&& e.kind == DstEventKind::SimulationStarted { seed: c.seed, duration_secs: c.duration.0 / NANOS_PER_SEC }
}

/// The last event of a finished timeline.
pub open spec fn end_event_ok(e: DstEvent, c: DstConfig, total_faults: usize, total_failures: usize) -> bool {
    &&& e.elapsed == c.duration
    &&& e.kind == DstEventKind::SimulationEnded { total_faults, total_failures }
}

/// The event a probe of pod `pod_idx` records for verdict `v`: the failure
/// and its reason, or the answer (status 200) with its latency: 5 to 49 ms,
/// plus the delay and up to the jitter (exclusive) of a slowing fault.
pub open spec fn probe_event_ok(k: DstEventKind, pod_idx: nat, v: ProbeVerdict) -> bool {
    match v {
        ProbeVerdict::Fails(f) => k matches DstEventKind::ProbeFailed { probe_name, error } && probe_name@
            == probe_name_text(pod_idx) && error@ == failure_text(f),
        ProbeVerdict::Succeeds(p) => k matches DstEventKind::ProbeSuccess {
            probe_name,
            latency_ms,
            status_code,
        } && probe_name@ == probe_name_text(pod_idx) && status_code == 200 && match p {
            None => 5 <= latency_ms <= 49,
            Some(q) => 5 + q.delay_ms <= latency_ms <= 48 + q.delay_ms + q.jitter_ms,
        },
    }
}

/// A run whose state is coherent.
pub struct DstRun {
    config: DstConfig,
    rng: StdRng,
    clock: VirtualClock<SimTimer>,
    network: VirtualNetwork,
    scheduler: FaultScheduler,
    active: Vec<SimFault>,
    events: Vec<DstEvent>,
    total_faults: usize,
    total_failures: usize,
    batch: Vec<Timer<SimTimer>>,
    pos: usize,
    timers_scheduled: u64,
    phase: DstPhase,
}

impl DstRun {
    /// The run's configuration.
    pub closed spec fn config(&self) -> DstConfig {
        self.config
    }

    /// The timeline so far.
    pub closed spec fn events(&self) -> Seq<DstEvent> {
        self.events@
    }

    /// The faults in effect, in id order.
    pub closed spec fn active(&self) -> Seq<SimFault> {
        self.active@
    }

    /// The network partitions in effect.
    pub closed spec fn partitions(&self) -> Seq<Partition> {
        self.network.partitions()
    }

    /// Where the run is.
    pub closed spec fn phase(&self) -> DstPhase {
        self.phase
    }

    /// The current virtual time.
    pub closed spec fn now(&self) -> VirtualTime {
        self.clock.time()
    }

    /// The number of faults injected so far.
    pub closed spec fn total_faults(&self) -> usize {
        self.total_faults
    }

    /// The number of failed probes so far.
    pub closed spec fn total_failures(&self) -> usize {
        self.total_failures
    }

    /// The timers still to fire, the next one first.
    pub closed spec fn upcoming(&self) -> Seq<Timer<SimTimer>> {
        self.batch@.skip(self.pos as int) + self.clock.pending()
    }

    /// Nearly every timer id of the clock has been handed out: the run can
    /// schedule no more and ends at its next step.
    pub closed spec fn budget_spent(&self) -> bool {
        self.timers_scheduled > u64::MAX - 4
    }

    /// The state is coherent: the clock, network and fault set keep their
    /// invariants, every pending probe is of an existing pod, the end timer is
    /// still ahead while the run goes on and the clock has not passed it, and
    /// the timeline starts with the run's start, is in time order, ends with
    /// the run's end once finished, and its counts match the totals; in a
    /// quiet run nothing is ever injected and no probe fails.
    pub closed spec fn wf(&self) -> bool {
        let c = self.config;
        &&& self.clock.wf()
        &&& self.network.wf()
        &&& self.clock.next_id() == self.timers_scheduled
        &&& self.network.next_id() <= self.timers_scheduled
        &&& (self.phase is AwaitingDelay ==> self.timers_scheduled <= u64::MAX - 3)
        &&& c.pod_count > 0
        &&& c.probe_interval.0 > 0
        &&& config_fits(c)
        &&& self.scheduler.target_pods@.len() == c.pod_count
        &&& (forall|i: int|
            0 <= i < c.pod_count ==> (#[trigger] self.scheduler.target_pods@[i])@ == pod_name_text(
                i as nat,
            ))
        &&& self.scheduler.enabled_faults@ == fault_types_of(c.faults@)
        &&& sorted_by_id(self.active@)
        &&& params_in_range(self.active@)
        &&& self.pos <= self.batch@.len()
        &&& timers_ok(self.batch@, c)
        &&& timers_ok(self.clock.pending(), c)
        &&& (forall|i: int|
            self.pos <= i < self.batch@.len() ==> (#[trigger] self.batch@[i]).wake_time.0
                <= self.clock.time().0)
        &&& (self.phase !is Finished ==> {
            &&& self.clock.time().0 <= c.duration.0
            &&& holds_end(self.batch@.skip(self.pos as int)) || holds_end(self.clock.pending())
            &&& forall|i: int|
                0 <= i < self.events@.len() ==> (#[trigger] self.events@[i]).elapsed.0
                    <= self.clock.time().0
        })
        &&& self.events@.len() >= 1
        &&& start_event_ok(self.events@[0], c)
        &&& in_time_order(self.events@)
        &&& (forall|i: int| 0 <= i < self.events@.len() ==> (#[trigger] self.events@[i]).elapsed.0 <= c.duration.0)
        &&& self.total_failures == count_failed(self.events@)
        &&& self.total_faults == count_injected(self.events@)
        &&& (self.phase is Finished ==> end_event_ok(self.events@.last(), c, self.total_faults, self.total_failures))
        &&& (quiet_run(c) ==> {
            &&& self.active@.len() == 0
            &&& self.network.partitions().len() == 0
            &&& self.total_faults == 0
            &&& self.total_failures == 0
            &&& self.phase !is AwaitingDelay
        })
    }
}

/// The timers of `rest`, with one more: at `wake`, with `priority` and
/// `payload`, in some place and under some id.
pub open spec fn rescheduled(
    rest: Seq<Timer<SimTimer>>,
    upcoming: Seq<Timer<SimTimer>>,
    wake: VirtualTime,
    priority: u8,
    payload: SimTimer,
) -> bool {
    exists|k: int, id: u64|
        0 <= k <= rest.len() && upcoming == #[trigger] rest.insert(
            k,
            Timer { wake_time: wake, callback_id: id, priority, payload },
        )
}

/// `new` is `old` with its timeline closed by the end event.
pub open spec fn closed_run(old: DstRun, new: DstRun) -> bool {
    &&& new.phase() == DstPhase::Finished
    &&& new.config() == old.config()
    &&& new.events().len() == old.events().len() + 1
    &&& new.events().drop_last() == old.events()
    &&& end_event_ok(new.events().last(), old.config(), old.total_faults(), old.total_failures())
    &&& new.active() == old.active()
    &&& new.partitions() == old.partitions()
    &&& new.total_faults() == old.total_faults()
    &&& new.total_failures() == old.total_failures()
}

/// `new` is `old` after a probe of pod `pod_idx`, the remaining timers being
/// `rest`: the probe's event is appended at the current time, a failure
/// counted, and the pod's next probe scheduled one interval later.
pub open spec fn probe_fired(old: DstRun, new: DstRun, rest: Seq<Timer<SimTimer>>, pod_idx: usize) -> bool {
    let target = NodeId((pod_idx + 1) as u64);
    let v = probe_verdict_of(old.active(), target, any_separates(old.partitions(), NodeId(0), target));
    &&& new.phase() == DstPhase::Running
    &&& new.config() == old.config()
    &&& new.active() == old.active()
    &&& new.partitions() == old.partitions()
    &&& new.total_faults() == old.total_faults()
    &&& new.total_failures() == old.total_failures() + if v is Fails {
        1nat
    } else {
        0nat
    }
    &&& new.events().len() == old.events().len() + 1
    &&& new.events().drop_last() == old.events()
    &&& new.events().last().elapsed == new.now()
    &&& probe_event_ok(new.events().last().kind, pod_idx as nat, v)
    &&& rescheduled(
        rest,
        new.upcoming(),
        VirtualTime((new.now().0 + old.config().probe_interval.0) as u64),
        PROBE_PRIORITY,
        SimTimer::Probe { pod_idx },
    )
}

/// `new` is `old` after the revert of fault `fault_id`: the fault (if still
/// in effect) and its partition are lifted, and the revert is recorded.
pub open spec fn revert_fired(old: DstRun, new: DstRun, rest: Seq<Timer<SimTimer>>, fault_id: [u8; 16]) -> bool {
    &&& new.phase() == DstPhase::Running
    &&& new.config() == old.config()
    &&& new.total_faults() == old.total_faults()
    &&& new.total_failures() == old.total_failures()
    &&& new.events().len() == old.events().len() + 1
    &&& new.events().drop_last() == old.events()
    &&& new.events().last().elapsed == new.now()
    &&& new.events().last().kind == DstEventKind::FaultReverted { fault_id }
    &&& new.upcoming() == rest
    &&& (exists|k: int|
        0 <= k < old.active().len() && (#[trigger] old.active()[k]).id@ == fault_id@ && new.active()
            == old.active().remove(k) && new.partitions() == match old.active()[k].partition_id {
            Some(pid) => old.partitions().filter(|p: Partition| p.id != pid),
            None => old.partitions(),
        }) || ((forall|i: int|
        0 <= i < old.active().len() ==> (#[trigger] old.active()[i]).id@ != fault_id@) && new.active()
        == old.active() && new.partitions() == old.partitions())
}

/// The fault `f` injected as type `ft` into `target` takes its place among
/// those in effect: a partition cutting the pod off from the prober, a latency
/// fault with a delay of 200 to 699 ms and a jitter of 50 to 149 ms.
pub open spec fn fault_placed(old: DstRun, new: DstRun, f: SimFault, ft: FaultType, target: NodeId) -> bool {
    &&& f.fault_type == ft
    &&& f.target_node == target
    &&& placed_by_id(old.active(), f, new.active())
    &&& (ft is Latency ==> (f.latency_params matches Some(p) && 200 <= p.delay_ms < 700 && 50 <= p.jitter_ms
        < 150))
    &&& if ft is Partition {
        &&& f.partition_id is Some
        &&& new.partitions().len() == old.partitions().len() + 1
        &&& new.partitions().drop_last() == old.partitions()
        &&& Some(new.partitions().last().id) == f.partition_id
        &&& new.partitions().last().nodes_a@ == seq![NodeId(0)]
        &&& new.partitions().last().nodes_b@ == seq![target]
    } else {
        &&& f.partition_id is None
        &&& new.partitions() == old.partitions()
    }
}

/// `new` is `old` after fault type `ft` was injected into pod `j`: the fault
/// takes its place, the injection is recorded with the fault's id, kind,
/// target and duration, and its revert is scheduled when that duration is
/// over.
pub open spec fn injected(old: DstRun, new: DstRun, rest: Seq<Timer<SimTimer>>, j: int, ft: FaultType) -> bool {
    let e = new.events().last();
    let target = NodeId((j + 1) as u64);
    &&& new.total_faults() == old.total_faults() + 1
    &&& new.events().len() == old.events().len() + 1
    &&& new.events().drop_last() == old.events()
    &&& e.elapsed == new.now()
    &&& e.kind is FaultInjected
    &&& e.kind->FaultInjected_fault_kind@ == fault_kind_text(ft)
    &&& e.kind->FaultInjected_target@ == pod_name_text(j as nat)
    &&& e.kind->FaultInjected_duration_secs == fault_duration_secs(ft)
    &&& rescheduled(
        rest,
        new.upcoming(),
        VirtualTime((new.now().0 + fault_duration_secs(ft) * NANOS_PER_SEC) as u64),
        FAULT_PRIORITY,
        SimTimer::RevertFault { fault_id: e.kind->FaultInjected_fault_id },
    )
    &&& exists|f: SimFault|
        f.id == e.kind->FaultInjected_fault_id && #[trigger] fault_placed(old, new, f, ft, target)
}

/// `new` is `old` after a fault timer fired before the end of the run: the
/// next fault (a configured kind, on a configured pod) is injected, or
/// nothing happens when no fault kind is configured; then the delay to the
/// next fault is awaited.
pub open spec fn fault_fired(old: DstRun, new: DstRun, rest: Seq<Timer<SimTimer>>) -> bool {
    let c = old.config();
    &&& new.phase() == DstPhase::AwaitingDelay
    &&& new.config() == c
    &&& new.total_failures() == old.total_failures()
    &&& if c.faults@.len() == 0 {
        &&& new.events() == old.events()
        &&& new.active() == old.active()
        &&& new.partitions() == old.partitions()
        &&& new.total_faults() == old.total_faults()
        &&& new.upcoming() == rest
    } else {
        exists|j: int, t: int|
            0 <= j < c.pod_count && 0 <= t < c.faults@.len() && #[trigger] injected(
                old,
                new,
                rest,
                j,
                fault_types_of(c.faults@)[t],
            )
    }
}

/// `new` is `old` after a fault timer that fired at or after the run's end:
/// only the clock moved.
pub open spec fn idle_fired(old: DstRun, new: DstRun, rest: Seq<Timer<SimTimer>>) -> bool {
    &&& new.phase() == DstPhase::Running
    &&& new.config() == old.config()
    &&& new.events() == old.events()
    &&& new.active() == old.active()
    &&& new.partitions() == old.partitions()
    &&& new.total_faults() == old.total_faults()
    &&& new.total_failures() == old.total_failures()
    &&& new.upcoming() == rest
}

/// When the first probe of pod `i` fires.
pub open spec fn first_probe_time(c: DstConfig, i: int) -> VirtualTime {
    VirtualTime((c.probe_interval.0 + PROBE_STAGGER_MILLIS * NANOS_PER_MILLI * i) as u64)
}

/// The timers of a run just started: one probe per pod, staggered by 100 ms
/// after the first interval, the first fault at the end of the warm-up when
/// faults are configured, and the end at the run's duration.
pub open spec fn initial_timers(s: Seq<Timer<SimTimer>>, c: DstConfig) -> bool {
    &&& s.len() == c.pod_count + (if c.faults@.len() > 0 {
        1int
    } else {
        0int
    }) + 1
    &&& forall|i: int|
        0 <= i < c.pod_count ==> #[trigger] has_timer(
            s,
            first_probe_time(c, i),
            PROBE_PRIORITY,
            SimTimer::Probe { pod_idx: i as usize },
        )
    &&& c.faults@.len() > 0 ==> has_timer(s, c.warmup, FAULT_PRIORITY, SimTimer::ScheduleFault)
    &&& has_timer(s, c.duration, CONTROL_PRIORITY, SimTimer::End)
}

/// The bytes of a version-4 (random) UUID: version nibble 4 in the high half
/// of byte 6, RFC 4122 variant bits `10` at the top of byte 8.
pub open spec fn uuid_v4_shape(id: [u8; 16]) -> bool {
    &&& id@[6] & 0xf0u8 == 0x40u8
    &&& id@[8] & 0xc0u8 == 0x80u8
}

/// A fresh id: sixteen bytes drawn from `rng`, made a version-4 UUID; its
/// other bits are the drawn ones.
fn new_id(rng: &mut StdRng) -> (id: [u8; 16])
    ensures
        uuid_v4_shape(id),
{
    let random = std_rng_random_bytes16(rng);
    let id = uuid_v4_from_random(random);
    let b6 = random[6];
    let b8 = random[8];
    assert((b6 & 0x0f | 0x40) & 0xf0 == 0x40u8) by (bit_vector);
    assert((b8 & 0x3f | 0x80) & 0xc0 == 0x80u8) by (bit_vector);
    id
}

/// The event kind a probe of pod `pod_idx` records for verdict `v`, given
/// the drawn base latency `base_ms` and the drawn slowdown `extra_ms`: the
/// failure and its reason, or the answer (status 200) after `base_ms`, plus
/// `extra_ms` when a fault slows the pod.
pub open spec fn probe_kind_is(k: DstEventKind, pod_idx: nat, v: ProbeVerdict, base_ms: u64, extra_ms: u64) -> bool {
    match v {
        ProbeVerdict::Fails(f) => k matches DstEventKind::ProbeFailed { probe_name, error } && probe_name@
            == probe_name_text(pod_idx) && error@ == failure_text(f),
        ProbeVerdict::Succeeds(p) => k matches DstEventKind::ProbeSuccess {
            probe_name,
            latency_ms,
            status_code,
        } && probe_name@ == probe_name_text(pod_idx) && status_code == 200 && latency_ms == match p {
            None => base_ms as int,
            Some(_) => base_ms + extra_ms,
        },
    }
}

/// The event kind a probe of pod `pod_idx` records for `verdict`, with the
/// drawn base latency and slowdown.
pub fn probe_event_kind(pod_idx: usize, verdict: ProbeVerdict, base_ms: u64, extra_ms: u64) -> (k: DstEventKind)
    requires
        base_ms + extra_ms <= u64::MAX,
    ensures
        probe_kind_is(k, pod_idx as nat, verdict, base_ms, extra_ms),
{
    let name = probe_name(pod_idx);
    match verdict {
        ProbeVerdict::Fails(reason) => DstEventKind::ProbeFailed { probe_name: name, error: failure_message(reason) },
        ProbeVerdict::Succeeds(slow) => {
            let latency = match slow {
                Some(_) => base_ms + extra_ms,
                None => base_ms,
            };
            DstEventKind::ProbeSuccess { probe_name: name, latency_ms: latency, status_code: 200 }
        },
    }
}

/// The slowdown of a latency fault from two drawn numbers: a delay of 200 ms
/// plus the first modulo 500, a jitter of 50 ms plus the second modulo 100.
pub fn latency_params_from(delay_draw: u32, jitter_draw: u32) -> (p: LatencyParams)
    ensures
        p.delay_ms == 200 + delay_draw % 500,
        p.jitter_ms == 50 + jitter_draw % 100,
{
    LatencyParams { delay_ms: 200 + delay_draw % 500, jitter_ms: 50 + jitter_draw % 100 }
}

/// Counting after an event is appended.
proof fn lemma_counts_push(s: Seq<DstEvent>, e: DstEvent)
    ensures
        count_failed(s.push(e)) == count_failed(s) + if e.kind is ProbeFailed {
            1nat
        } else {
            0nat
        },
        count_injected(s.push(e)) == count_injected(s) + if e.kind is FaultInjected {
            1nat
        } else {
            0nat
        },
{
    assert(s.push(e).drop_last() =~= s);
}

/// A timeline that counts no failed probe has none.
proof fn lemma_no_failures(s: Seq<DstEvent>)
    requires
        count_failed(s) == 0,
    ensures
        forall|i: int| 0 <= i < s.len() ==> !((#[trigger] s[i]).kind is ProbeFailed),
    decreases s.len(),
{
    if s.len() > 0 {
        lemma_no_failures(s.drop_last());
        assert forall|i: int| 0 <= i < s.len() implies !((#[trigger] s[i]).kind is ProbeFailed) by {
            if i < s.len() - 1 {
                assert(s[i] == s.drop_last()[i]);
            }
        }
    }
}

/// A timeline that counts no injected fault has none.
proof fn lemma_no_injections(s: Seq<DstEvent>)
    requires
        count_injected(s) == 0,
    ensures
        forall|i: int| 0 <= i < s.len() ==> !((#[trigger] s[i]).kind is FaultInjected),
    decreases s.len(),
{
    if s.len() > 0 {
        lemma_no_injections(s.drop_last());
        assert forall|i: int| 0 <= i < s.len() implies !((#[trigger] s[i]).kind is FaultInjected) by {
            if i < s.len() - 1 {
                assert(s[i] == s.drop_last()[i]);
            }
        }
    }
}

/// A count is at most the timeline's length.
proof fn lemma_counts_bounded(s: Seq<DstEvent>)
    ensures
        count_failed(s) <= s.len(),
        count_injected(s) <= s.len(),
    decreases s.len(),
{
    if s.len() > 0 {
        lemma_counts_bounded(s.drop_last());
    }
}

/// With latency faults in range, the slowdown left for a target is 100 to
/// 699 ms of delay and 50 to 200 ms of jitter.
proof fn lemma_params_bounded(s: Seq<SimFault>, target: NodeId)
    requires
        params_in_range(s),
    ensures
        latency_params_for(s, target) matches Some(p) ==> 100 <= p.delay_ms < 700 && 50 <= p.jitter_ms
            <= 200,
    decreases s.len(),
{
    if s.len() > 0 {
        let r = s.drop_last();
        assert forall|i: int| 0 <= i < r.len() && (#[trigger] r[i]).fault_type is Latency implies (
        r[i].latency_params matches Some(p) && 200 <= p.delay_ms < 700 && 50 <= p.jitter_ms < 150) by {
            assert(r[i] == s[i]);
        }
        lemma_params_bounded(r, target);
        assert(s.last() == s[s.len() - 1]);
    }
}

/// Inserting into the second part of a concatenation.
proof fn lemma_insert_in_tail<T>(a: Seq<T>, b: Seq<T>, k: int, t: T)
    requires
        0 <= k <= b.len(),
    ensures
        a + b.insert(k, t) == (a + b).insert(a.len() + k, t),
{
    assert(a + b.insert(k, t) =~= (a + b).insert(a.len() + k, t));
}

/// An inserted timer keeps every timer fitting, and the end timer present.
proof fn lemma_timers_insert(s: Seq<Timer<SimTimer>>, k: int, t: Timer<SimTimer>, c: DstConfig)
    requires
        0 <= k <= s.len(),
        timers_ok(s, c),
        timer_ok(t, c),
    ensures
        timers_ok(s.insert(k, t), c),
        holds_end(s) ==> holds_end(s.insert(k, t)),
        forall|w: VirtualTime, p: u8, x: SimTimer| #[trigger] has_timer(s, w, p, x) ==> has_timer(s.insert(k, t), w, p, x),
        has_timer(s.insert(k, t), t.wake_time, t.priority, t.payload),
{
    let r = s.insert(k, t);
    assert forall|i: int| 0 <= i < r.len() implies timer_ok(#[trigger] r[i], c) by {
        if i < k {
            assert(r[i] == s[i]);
        } else if i > k {
            assert(r[i] == s[i - 1]);
        }
    }
    if holds_end(s) {
        let i = choose|i: int| 0 <= i < s.len() && (#[trigger] s[i]).payload is End;
        if i < k {
            assert(r[i] == s[i]);
        } else {
            assert(r[i + 1] == s[i]);
        }
    }
    assert forall|w: VirtualTime, p: u8, x: SimTimer| #[trigger] has_timer(s, w, p, x) implies has_timer(r, w, p, x) by {
        let i = choose|i: int|
            0 <= i < s.len() && (#[trigger] s[i]).wake_time == w && s[i].priority == p && s[i].payload == x;
        if i < k {
            assert(r[i] == s[i]);
        } else {
            assert(r[i + 1] == s[i]);
        }
    }
    assert(r[k] == t);
}

impl DstRun {
    /// Starts a run: checks the configuration (at least one pod, a probe
    /// interval above zero, known fault names), seeds the generator from the
    /// seed, draws the network's seed from it, records the start and sets the
    /// first timers.
    pub fn start(config: DstConfig) -> (r: Result<DstRun, DstError>)
        requires
            config_fits(config),
        ensures
            config.pod_count == 0 ==> r == Err::<DstRun, DstError>(DstError::NoPods),
            config.pod_count > 0 && config.probe_interval.0 == 0 ==> r == Err::<DstRun, DstError>(
                DstError::ZeroProbeInterval,
            ),
            config.pod_count > 0 && config.probe_interval.0 > 0 && !all_known(config.faults@) ==> (r matches Err(
                DstError::UnknownFault { name },
            ) && exists|k: int|
                0 <= k < config.faults@.len() && crate::cli::dst::fault_type_named(config.faults@[k]@) is None
                    && (forall|i: int|
                    0 <= i < k ==> crate::cli::dst::fault_type_named((#[trigger] config.faults@[i])@) is Some)
                    && name@ == config.faults@[k]@),
            config.pod_count > 0 && config.probe_interval.0 > 0 && all_known(config.faults@) ==> (r matches Ok(
                run,
            ) && run.wf() && run.phase() == DstPhase::Running && run.config() == config && run.now()
                == VirtualTime(0) && run.events().len() == 1 && run.active().len() == 0
                && run.partitions().len() == 0 && run.total_faults() == 0 && run.total_failures() == 0
                && initial_timers(run.upcoming(), config)),
    {
        if config.pod_count == 0 {
            return Err(DstError::NoPods);
        }
        if config.probe_interval.0 == 0 {
            return Err(DstError::ZeroProbeInterval);
        }
        let mut rng = std_rng_from_seed(config.seed);
        let mut clock: VirtualClock<SimTimer> = VirtualClock::new();
        let network_seed = std_rng_next_u64(&mut rng);
        let network = VirtualNetwork::new(SimSeed(network_seed));
        let fault_types = match fault_types_from_names(config.faults.as_slice()) {
            Ok(v) => v,
            Err(e) => {
                return Err(e);
            },
        };
        let mut target_pods: Vec<String> = Vec::new();
        let mut i: usize = 0;
        while i < config.pod_count
            invariant
                i <= config.pod_count,
                target_pods@.len() == i,
                forall|j: int| 0 <= j < i ==> (#[trigger] target_pods@[j])@ == pod_name_text(j as nat),
            decreases config.pod_count - i,
        {
            target_pods.push(pod_name(i));
            i = i + 1;
        }
        let scheduler = FaultScheduler::new(config.seed, fault_types, target_pods, String::from_str("sim"));
        let start_id = new_id(&mut rng);
        let mut events: Vec<DstEvent> = Vec::new();
        events.push(
            DstEvent {
                id: start_id,
                elapsed: VirtualTime(0),
                kind: DstEventKind::SimulationStarted { seed: config.seed, duration_secs: config.duration.as_secs() },
            },
        );
        let mut idx: usize = 0;
        while idx < config.pod_count
            invariant
                idx <= config.pod_count,
                config_fits(config),
                clock.wf(),
                clock.time() == VirtualTime(0),
                clock.next_id() == idx,
                clock.pending().len() == idx,
                timers_ok(clock.pending(), config),
                forall|j: int|
                    0 <= j < idx ==> #[trigger] has_timer(
                        clock.pending(),
                        first_probe_time(config, j),
                        PROBE_PRIORITY,
                        SimTimer::Probe { pod_idx: j as usize },
                    ),
            decreases config.pod_count - idx,
        {
            let offset = VirtualTime::from_millis(PROBE_STAGGER_MILLIS * idx as u64);
            let wake = config.probe_interval + offset;
            let ghost before = clock.pending();
            clock.schedule(wake, PROBE_PRIORITY, SimTimer::Probe { pod_idx: idx });
            proof {
                let k = choose|k: int|
                    0 <= k <= before.len() && clock.pending() == #[trigger] before.insert(
                        k,
                        Timer { wake_time: wake, callback_id: idx as u64, priority: PROBE_PRIORITY, payload: SimTimer::Probe { pod_idx: idx } },
                    );
                lemma_timers_insert(before, k, clock.pending()[k], config);
                assert(wake == first_probe_time(config, idx as int));
                assert forall|j: int| 0 <= j < idx + 1 implies #[trigger] has_timer(
                    clock.pending(),
                    first_probe_time(config, j),
                    PROBE_PRIORITY,
                    SimTimer::Probe { pod_idx: j as usize },
                ) by {
                    if j < idx {
                        assert(has_timer(before, first_probe_time(config, j), PROBE_PRIORITY, SimTimer::Probe { pod_idx: j as usize }));
                    }
                }
            }
            idx = idx + 1;
        }
        let mut scheduled: u64 = config.pod_count as u64;
        if config.faults.len() > 0 {
            let ghost before = clock.pending();
            clock.schedule(config.warmup, FAULT_PRIORITY, SimTimer::ScheduleFault);
            proof {
                let k = choose|k: int|
                    0 <= k <= before.len() && clock.pending() == #[trigger] before.insert(
                        k,
                        Timer { wake_time: config.warmup, callback_id: scheduled, priority: FAULT_PRIORITY, payload: SimTimer::ScheduleFault },
                    );
                lemma_timers_insert(before, k, clock.pending()[k], config);
                assert forall|j: int| 0 <= j < config.pod_count implies #[trigger] has_timer(
                    clock.pending(),
                    first_probe_time(config, j),
                    PROBE_PRIORITY,
                    SimTimer::Probe { pod_idx: j as usize },
                ) by {
                    assert(has_timer(before, first_probe_time(config, j), PROBE_PRIORITY, SimTimer::Probe { pod_idx: j as usize }));
                }
            }
            scheduled = scheduled + 1;
        }
        let ghost before = clock.pending();
        clock.schedule(config.duration, CONTROL_PRIORITY, SimTimer::End);
        proof {
            let k = choose|k: int|
                0 <= k <= before.len() && clock.pending() == #[trigger] before.insert(
                    k,
                    Timer { wake_time: config.duration, callback_id: scheduled, priority: CONTROL_PRIORITY, payload: SimTimer::End },
                );
            lemma_timers_insert(before, k, clock.pending()[k], config);
            assert(clock.pending()[k].payload is End);
            assert forall|j: int| 0 <= j < config.pod_count implies #[trigger] has_timer(
                clock.pending(),
                first_probe_time(config, j),
                PROBE_PRIORITY,
                SimTimer::Probe { pod_idx: j as usize },
            ) by {
                assert(has_timer(before, first_probe_time(config, j), PROBE_PRIORITY, SimTimer::Probe { pod_idx: j as usize }));
            }
            if config.faults@.len() > 0 {
                assert(has_timer(before, config.warmup, FAULT_PRIORITY, SimTimer::ScheduleFault));
            }
        }
        scheduled = scheduled + 1;
        let run = DstRun {
            config,
            rng,
            clock,
            network,
            scheduler,
            active: Vec::new(),
            events,
            total_faults: 0,
            total_failures: 0,
            batch: Vec::new(),
            pos: 0,
            timers_scheduled: scheduled,
            phase: DstPhase::Running,
        };
        proof {
            assert(run.batch@.skip(0) =~= Seq::<Timer<SimTimer>>::empty());
            assert(run.upcoming() =~= run.clock.pending());
            assert(holds_end(run.clock.pending()));
            lemma_counts_push(Seq::<DstEvent>::empty(), run.events@[0]);
            assert(Seq::<DstEvent>::empty().push(run.events@[0]) =~= run.events@);
        }
        Ok(run)
    }
}

impl DstRun {
    /// Closes the timeline: the end event, at the run's duration, with the
    /// totals.
    fn finish(&mut self)
        requires
            old(self).wf(),
            old(self).phase() !is Finished,
        ensures
            final(self).wf(),
            closed_run(*old(self), *final(self)),
            final(self).now() == old(self).now(),
            final(self).upcoming() == old(self).upcoming(),
    {
        let id = new_id(&mut self.rng);
        let e = DstEvent {
            id,
            elapsed: self.config.duration,
            kind: DstEventKind::SimulationEnded { total_faults: self.total_faults, total_failures: self.total_failures },
        };
        let ghost before = self.events@;
        self.events.push(e);
        self.phase = DstPhase::Finished;
        proof {
            lemma_counts_push(before, e);
            assert(self.events@[0] == before[0]);
            assert forall|i: int, j: int| 0 <= i <= j < self.events@.len() implies (#[trigger] self.events@[i]).elapsed.0
                <= (#[trigger] self.events@[j]).elapsed.0 by {
                if j < before.len() {
                    assert(self.events@[i] == before[i] && self.events@[j] == before[j]);
                } else if i < before.len() {
                    assert(self.events@[i] == before[i]);
                }
            }
            assert(self.events@.drop_last() =~= before);
        }
    }

    /// Brings the next timer to the front of the current batch, moving the
    /// clock to the next batch when this one is used up.
    fn peek(&mut self) -> (p: Option<SimTimer>)
        requires
            old(self).wf(),
            old(self).phase() == DstPhase::Running,
        ensures
            final(self).wf(),
            final(self).phase == DstPhase::Running,
            final(self).config == old(self).config,
            final(self).events == old(self).events,
            final(self).active == old(self).active,
            final(self).network == old(self).network,
            final(self).total_faults == old(self).total_faults,
            final(self).total_failures == old(self).total_failures,
            final(self).timers_scheduled == old(self).timers_scheduled,
            final(self).upcoming() == old(self).upcoming(),
            old(self).upcoming().len() == 0 ==> p is None && final(self).now() == old(self).now(),
            old(self).upcoming().len() > 0 ==> {
                &&& p == Some(old(self).upcoming()[0].payload)
                &&& final(self).pos < final(self).batch@.len()
                &&& final(self).batch@[final(self).pos as int] == old(self).upcoming()[0]
                &&& final(self).now().0 == later(old(self).now().0, old(self).upcoming()[0].wake_time.0)
            },
    {
        if self.pos == self.batch.len() {
            let ghost old_pending = self.clock.pending();
            let ghost old_time = self.clock.time();
            let ghost c = self.config;
            proof {
                assert(self.batch@.skip(self.pos as int) =~= Seq::<Timer<SimTimer>>::empty());
                assert(self.upcoming() =~= old_pending);
            }
            let expired = self.clock.tick();
            self.batch = expired;
            self.pos = 0;
            proof {
                let b = self.batch@;
                let r = self.clock.pending();
                assert(b.skip(0) =~= b);
                assert(self.upcoming() =~= old_pending);
                assert forall|i: int| 0 <= i < b.len() implies timer_ok(#[trigger] b[i], c) by {
                    assert(b[i] == old_pending[i]);
                }
                assert forall|i: int| 0 <= i < r.len() implies timer_ok(#[trigger] r[i], c) by {
                    assert(r[i] == old_pending[b.len() + i]);
                }
                if old_pending.len() > 0 {
                    let k = choose|k: int| 0 <= k < old_pending.len() && (#[trigger] old_pending[k]).payload is End;
                    if k > 0 {
                        assert(crate::clock::fires_before(old_pending[0], old_pending[k]));
                    }
                    assert(old_pending[0].wake_time.0 <= c.duration.0);
                    if k < b.len() {
                        assert(b[k] == old_pending[k]);
                        assert(holds_end(b.skip(0)));
                    } else {
                        assert(r[k - b.len()] == old_pending[k]);
                        assert(holds_end(r));
                    }
                    assert(b[0] == old_pending[0]);
                } else {
                    let k = choose|k: int| 0 <= k < old_pending.len() && (#[trigger] old_pending[k]).payload is End;
                    assert(false);
                }
            }
        }
        if self.pos < self.batch.len() {
            proof {
                assert(self.upcoming()[0] == self.batch@[self.pos as int]);
            }
            Some(self.batch[self.pos].payload)
        } else {
            proof {
                assert(self.batch@.skip(self.pos as int) =~= Seq::<Timer<SimTimer>>::empty());
            }
            None
        }
    }

    /// Moves past the timer at the front of the batch, which is not the end.
    fn consume(&mut self)
        requires
            old(self).wf(),
            old(self).phase() == DstPhase::Running,
            old(self).pos < old(self).batch@.len(),
            !(old(self).batch@[old(self).pos as int].payload is End),
        ensures
            final(self).wf(),
            final(self).phase == DstPhase::Running,
            final(self).config == old(self).config,
            final(self).events == old(self).events,
            final(self).active == old(self).active,
            final(self).network == old(self).network,
            final(self).clock == old(self).clock,
            final(self).total_faults == old(self).total_faults,
            final(self).total_failures == old(self).total_failures,
            final(self).timers_scheduled == old(self).timers_scheduled,
            final(self).upcoming() == old(self).upcoming().skip(1),
    {
        let ghost b = self.batch@;
        let ghost p = self.pos as int;
        let n = self.batch.len();
        assert(self.pos < n);
        self.pos = self.pos + 1;
        proof {
            assert(b.skip(p + 1) + self.clock.pending() =~= (b.skip(p) + self.clock.pending()).skip(1));
            if holds_end(b.skip(p)) {
                let k = choose|k: int| 0 <= k < b.skip(p).len() && (#[trigger] b.skip(p)[k]).payload is End;
                assert(b.skip(p)[k] == b[p + k]);
                assert(k > 0);
                assert(b.skip(p + 1)[k - 1] == b[p + k]);
            }
        }
    }
}

/// The index of the first pod named `name`, or 0 when none is.
fn pod_index(pods: &Vec<String>, name: &String) -> (j: usize)
    requires
        pods@.len() > 0,
    ensures
        j < pods@.len(),
        (exists|k: int| 0 <= k < pods@.len() && (#[trigger] pods@[k])@ == name@) ==> pods@[j as int]@
            == name@,
{
    let mut i: usize = 0;
    while i < pods.len()
        invariant
            i <= pods@.len(),
            forall|k: int| 0 <= k < i ==> (#[trigger] pods@[k])@ != name@,
        decreases pods@.len() - i,
    {
        if same_str(pods[i].as_str(), name.as_str()) {
            return i;
        }
        i = i + 1;
    }
    0
}

impl DstRun {
    /// Fires a probe of pod `pod_idx`: it fails when a crash, a partition or a
    /// DNS fault cuts it off, and otherwise answers after 5 to 49 ms plus the
    /// slowdown of a latency or stress fault; then the pod's next probe is set.
    fn fire_probe(&mut self, pod_idx: usize)
        requires
            old(self).wf(),
            old(self).phase() == DstPhase::Running,
            pod_idx < old(self).config.pod_count,
            !old(self).budget_spent(),
        ensures
            final(self).wf(),
            probe_fired(*old(self), *final(self), old(self).upcoming(), pod_idx),
            final(self).timers_scheduled == old(self).timers_scheduled + 1,
            final(self).now() == old(self).now(),
    {
        let now = self.clock.now();
        let target = NodeId(pod_idx as u64 + 1);
        let partitioned = self.network.is_partitioned(NodeId(0), target);
        let verdict = probe_verdict(self.active.as_slice(), target, partitioned);
        let ghost before = self.events@;
        proof {
            lemma_params_bounded(self.active@, target);
            lemma_counts_bounded(before.push(before[0]));
        }
        let (base, extra) = match verdict {
            ProbeVerdict::Fails(_) => (0u64, 0u64),
            ProbeVerdict::Succeeds(slow) => {
                let base = std_rng_range_inclusive(&mut self.rng, 5, 49);
                let extra = match slow {
                    Some(q) => {
                        let lo = q.delay_ms as u64;
                        let hi = q.delay_ms as u64 + q.jitter_ms as u64 - 1;
                        std_rng_range_inclusive(&mut self.rng, lo, hi)
                    },
                    None => 0,
                };
                (base, extra)
            },
        };
        let kind = probe_event_kind(pod_idx, verdict, base, extra);
        let id = new_id(&mut self.rng);
        let e = DstEvent { id, elapsed: now, kind };
        let failed = e.kind.is_probe_failed();
        self.events.push(e);
        let n = self.events.len();
        proof {
            lemma_counts_push(before, e);
            lemma_counts_bounded(self.events@);
            assert(self.events@[0] == before[0]);
            assert forall|i: int, j: int| 0 <= i <= j < self.events@.len() implies (#[trigger] self.events@[i]).elapsed.0
                <= (#[trigger] self.events@[j]).elapsed.0 by {
                if j < before.len() {
                    assert(self.events@[i] == before[i] && self.events@[j] == before[j]);
                } else if i < before.len() {
                    assert(self.events@[i] == before[i]);
                }
            }
            assert forall|i: int| 0 <= i < self.events@.len() implies (#[trigger] self.events@[i]).elapsed.0
                <= self.clock.time().0 by {
                if i < before.len() {
                    assert(self.events@[i] == before[i]);
                }
            }
            assert(self.events@.drop_last() =~= before);
        }
        if failed {
            self.total_failures = self.total_failures + 1;
        }
        let ghost pending = self.clock.pending();
        let id = self.clock.schedule_after(self.config.probe_interval, PROBE_PRIORITY, SimTimer::Probe { pod_idx });
        self.timers_scheduled = self.timers_scheduled + 1;
        proof {
            let t = Timer {
                wake_time: VirtualTime((now.0 + self.config.probe_interval.0) as u64),
                callback_id: id,
                priority: PROBE_PRIORITY,
                payload: SimTimer::Probe { pod_idx },
            };
            let k = choose|k: int| 0 <= k <= pending.len() && self.clock.pending() == #[trigger] pending.insert(k, t);
            lemma_timers_insert(pending, k, t, self.config);
            let head = self.batch@.skip(self.pos as int);
            lemma_insert_in_tail(head, pending, k, t);
            assert(self.upcoming() == old(self).upcoming().insert(head.len() + k, t));
            assert(0 <= head.len() + k <= old(self).upcoming().len());
        }
    }

    /// Fires the revert of fault `fault_id`: the fault is lifted (with its
    /// partition) if still in effect, and the revert recorded.
    fn fire_revert(&mut self, fault_id: [u8; 16])
        requires
            old(self).wf(),
            old(self).phase() == DstPhase::Running,
        ensures
            final(self).wf(),
            revert_fired(*old(self), *final(self), old(self).upcoming(), fault_id),
            final(self).timers_scheduled == old(self).timers_scheduled,
            final(self).now() == old(self).now(),
    {
        let now = self.clock.now();
        let ghost active = self.active@;
        let removed = take_fault(&mut self.active, &fault_id);
        match removed {
            Some(f) => match f.partition_id {
                Some(pid) => self.network.remove_partition(pid),
                None => {},
            },
            None => {},
        }
        let id = new_id(&mut self.rng);
        let e = DstEvent { id, elapsed: now, kind: DstEventKind::FaultReverted { fault_id } };
        let ghost before = self.events@;
        self.events.push(e);
        proof {
            lemma_counts_push(before, e);
            assert(self.events@[0] == before[0]);
            assert forall|i: int, j: int| 0 <= i <= j < self.events@.len() implies (#[trigger] self.events@[i]).elapsed.0
                <= (#[trigger] self.events@[j]).elapsed.0 by {
                if j < before.len() {
                    assert(self.events@[i] == before[i] && self.events@[j] == before[j]);
                } else if i < before.len() {
                    assert(self.events@[i] == before[i]);
                }
            }
            assert forall|i: int| 0 <= i < self.events@.len() implies (#[trigger] self.events@[i]).elapsed.0
                <= self.clock.time().0 by {
                if i < before.len() {
                    assert(self.events@[i] == before[i]);
                }
            }
            assert(self.events@.drop_last() =~= before);
            assert forall|i: int|
                0 <= i < self.active@.len() && (#[trigger] self.active@[i]).fault_type is Latency implies (
            self.active@[i].latency_params matches Some(p) && 200 <= p.delay_ms < 700 && 50 <= p.jitter_ms
                < 150) by {
                match removed {
                    Some(f) => {
                        let k = choose|k: int|
                            0 <= k < active.len() && active[k] == f && f.id@ == fault_id@ && self.active@
                                == active.remove(k);
                        if i < k {
                            assert(self.active@[i] == active[i]);
                        } else {
                            assert(self.active@[i] == active[i + 1]);
                        }
                    },
                    None => {},
                }
            }
            match removed {
                Some(f) => {
                    let k = choose|k: int|
                        0 <= k < active.len() && active[k] == f && f.id@ == fault_id@ && self.active@
                            == active.remove(k);
                    assert(active[k].id@ == fault_id@);
                },
                None => {},
            }
        }
    }

    /// Fires a fault timer before the end of the run: injects the next fault
    /// the scheduler picks, sets its revert, and hands out the scheduler's
    /// generator for the delay to the next fault.
    fn fire_fault(&mut self) -> (out: StdRng)
        requires
            old(self).wf(),
            old(self).phase() == DstPhase::Running,
            old(self).now().0 < old(self).config.duration.0,
            !old(self).budget_spent(),
            old(self).config.faults@.len() > 0,
            old(self).config.warmup.0 < old(self).config.duration.0,
        ensures
            final(self).wf(),
            fault_fired(*old(self), *final(self), old(self).upcoming()),
            final(self).now() == old(self).now(),
    {
        let now = self.clock.now();
        let ghost before = self.events@;
        let ghost active = self.active@;
        let ghost parts = self.network.partitions();
        let mut out = std_rng_from_seed(0);
        match self.scheduler.next_fault() {
            None => {
                std::mem::swap(&mut out, &mut self.scheduler.rng);
                self.phase = DstPhase::AwaitingDelay;
                assert(fault_types_of(self.config.faults@).len() == self.config.faults@.len());
            },
            Some(scheduled) => {
                let fault_id = new_id(&mut self.rng);
                let j = pod_index(&self.scheduler.target_pods, &scheduled.target_pod);
                let target = NodeId(j as u64 + 1);
                let ft = scheduled.fault_type;
                let mut latency_params: Option<LatencyParams> = None;
                match ft {
                    FaultType::Latency { .. } => {
                        let delay_draw = std_rng_random_u32(&mut self.rng);
                        let jitter_draw = std_rng_random_u32(&mut self.rng);
                        latency_params = Some(latency_params_from(delay_draw, jitter_draw));
                    },
                    _ => {},
                }
                let (kind, secs) = fault_plan(ft);
                let mut partition_id: Option<u64> = None;
                match ft {
                    FaultType::Partition => {
                        let mut nodes_a: Vec<NodeId> = Vec::new();
                        nodes_a.push(NodeId(0));
                        let mut nodes_b: Vec<NodeId> = Vec::new();
                        nodes_b.push(target);
                        assert(nodes_a@ =~= seq![NodeId(0)]);
                        assert(nodes_b@ =~= seq![target]);
                        partition_id = Some(self.network.add_partition(nodes_a, nodes_b));
                        assert(self.network.partitions().drop_last() =~= parts);
                    },
                    _ => {},
                }
                let f = SimFault { id: fault_id, fault_type: ft, target_node: target, partition_id, latency_params };
                place_fault(&mut self.active, f);
                let eid = new_id(&mut self.rng);
                let e = DstEvent {
                    id: eid,
                    elapsed: now,
                    kind: DstEventKind::FaultInjected {
                        fault_id,
                        fault_kind: String::from_str(kind),
                        target: scheduled.target_pod,
                        duration_secs: secs,
                    },
                };
                self.events.push(e);
                let n = self.events.len();
                proof {
                    lemma_counts_push(before, e);
                    lemma_counts_bounded(self.events@);
                }
                self.total_faults = self.total_faults + 1;
                let ghost pending = self.clock.pending();
                let d = VirtualTime::from_secs(secs);
                let tid = self.clock.schedule_after(d, FAULT_PRIORITY, SimTimer::RevertFault { fault_id });
                self.timers_scheduled = self.timers_scheduled + 1;
                std::mem::swap(&mut out, &mut self.scheduler.rng);
                self.phase = DstPhase::AwaitingDelay;
                proof {
                    let t = Timer {
                        wake_time: VirtualTime((now.0 + secs * NANOS_PER_SEC) as u64),
                        callback_id: tid,
                        priority: FAULT_PRIORITY,
                        payload: SimTimer::RevertFault { fault_id },
                    };
                    let k = choose|k: int| 0 <= k <= pending.len() && self.clock.pending() == #[trigger] pending.insert(k, t);
                    lemma_timers_insert(pending, k, t, self.config);
                    let head = self.batch@.skip(self.pos as int);
                    lemma_insert_in_tail(head, pending, k, t);
                    assert(self.upcoming() == old(self).upcoming().insert(head.len() + k, t));
                    assert(0 <= head.len() + k <= old(self).upcoming().len());
                    assert(self.events@[0] == before[0]);
                    assert forall|a: int, b: int| 0 <= a <= b < self.events@.len() implies (#[trigger] self.events@[a]).elapsed.0
                        <= (#[trigger] self.events@[b]).elapsed.0 by {
                        if b < before.len() {
                            assert(self.events@[a] == before[a] && self.events@[b] == before[b]);
                        } else if a < before.len() {
                            assert(self.events@[a] == before[a]);
                        }
                    }
                    assert forall|a: int| 0 <= a < self.events@.len() implies (#[trigger] self.events@[a]).elapsed.0
                        <= self.clock.time().0 by {
                        if a < before.len() {
                            assert(self.events@[a] == before[a]);
                        }
                    }
                    assert(self.events@.drop_last() =~= before);
                    let kk = choose|kk: int|
                        0 <= kk <= active.len() && (forall|i: int| 0 <= i < kk ==> id_before((#[trigger] active[i]).id@, f.id@))
                            && (forall|i: int| kk <= i < active.len() ==> !id_before((#[trigger] active[i]).id@, f.id@)) && self.active@
                            == if kk < active.len() && active[kk].id@ == f.id@ {
                            active.update(kk, f)
                        } else {
                            active.insert(kk, f)
                        };
                    assert forall|i: int|
                        0 <= i < self.active@.len() && (#[trigger] self.active@[i]).fault_type is Latency implies (
                    self.active@[i].latency_params matches Some(p) && 200 <= p.delay_ms < 700 && 50 <= p.jitter_ms
                        < 150) by {
                        if kk < active.len() && active[kk].id@ == f.id@ {
                            if i != kk {
                                assert(self.active@[i] == active[i]);
                            }
                        } else {
                            if i < kk {
                                assert(self.active@[i] == active[i]);
                            } else if i > kk {
                                assert(self.active@[i] == active[i - 1]);
                            }
                        }
                    }
                    assert(f.fault_type == ft && f.target_node == target);
                    assert(placed_by_id(old(self).active(), f, self.active()));
                    assert(ft is Latency ==> (f.latency_params matches Some(p) && 200 <= p.delay_ms < 700 && 50 <= p.jitter_ms < 150));
                    if ft is Partition {
                        assert(self.partitions().drop_last() == old(self).partitions());
                        assert(Some(self.partitions().last().id) == f.partition_id);
                    } else {
                        assert(self.partitions() == old(self).partitions());
                    }
                    assert(fault_placed(*old(self), *self, f, ft, target));
                    let ti = choose|ti: int|
                        0 <= ti < old(self).scheduler.enabled_faults@.len() && ft == #[trigger] old(self).scheduler.enabled_faults@[ti];
                    assert(fault_types_of(self.config.faults@).len() == self.config.faults@.len());
                    assert(injected(*old(self), *self, old(self).upcoming(), j as int, fault_types_of(self.config.faults@)[ti]));
                }
            },
        }
        out
    }
}

impl DstRun {
    /// Fires the next timer. The run ends at the end timer (or when no timer
    /// is left); a probe, a revert or a fault timer acts as its own function
    /// says. A fault timer at or after the run's end does nothing.
    pub fn step(&mut self) -> (r: DstStep)
        requires
            old(self).wf(),
            old(self).phase() == DstPhase::Running,
        ensures
            final(self).wf(),
            old(self).budget_spent() || old(self).upcoming().len() == 0 ==> r is Finished && closed_run(
                *old(self),
                *final(self),
            ),
            !old(self).budget_spent() && old(self).upcoming().len() > 0 ==> ({
                let t = old(self).upcoming()[0];
                let rest = old(self).upcoming().skip(1);
                &&& final(self).now().0 == later(old(self).now().0, t.wake_time.0)
                &&& match t.payload {
                    SimTimer::End => r is Finished && closed_run(*old(self), *final(self)),
                    SimTimer::Probe { pod_idx } => r is Continue && probe_fired(*old(self), *final(self), rest, pod_idx),
                    SimTimer::RevertFault { fault_id } => r is Continue && revert_fired(
                        *old(self),
                        *final(self),
                        rest,
                        fault_id,
                    ),
                    SimTimer::ScheduleFault => if final(self).now().0 >= old(self).config().duration.0 {
                        r is Continue && idle_fired(*old(self), *final(self), rest)
                    } else {
                        r is FaultDelayNeeded && fault_fired(*old(self), *final(self), rest)
                    },
                }
            }),
    {
        if self.timers_scheduled > u64::MAX - 4 {
            self.finish();
            return DstStep::Finished;
        }
        let next = self.peek();
        let ghost peeked = *self;
        match next {
            None => {
                assert(old(self).upcoming().len() == 0);
                self.finish();
                DstStep::Finished
            },
            Some(SimTimer::End) => {
                self.finish();
                assert(closed_run(*old(self), *self));
                DstStep::Finished
            },
            Some(SimTimer::Probe { pod_idx }) => {
                self.consume();
                let ghost s1 = *self;
                self.fire_probe(pod_idx);
                assert(probe_fired(s1, *self, s1.upcoming(), pod_idx));
                assert(s1.upcoming() == old(self).upcoming().skip(1));
                assert(probe_fired(*old(self), *self, old(self).upcoming().skip(1), pod_idx));
                DstStep::Continue
            },
            Some(SimTimer::RevertFault { fault_id }) => {
                self.consume();
                let ghost s1 = *self;
                self.fire_revert(fault_id);
                assert(revert_fired(*old(self), *self, old(self).upcoming().skip(1), fault_id));
                DstStep::Continue
            },
            Some(SimTimer::ScheduleFault) => {
                self.consume();
                let ghost s1 = *self;
                if self.clock.now().0 >= self.config.duration.0 {
                    assert(idle_fired(*old(self), *self, old(self).upcoming().skip(1)));
                    DstStep::Continue
                } else {
                    assert(timer_ok(peeked.batch@[peeked.pos as int], self.config));
                    assert(peeked.batch@[peeked.pos as int].wake_time.0 <= self.clock.time().0);
                    let rng = self.fire_fault();
                    proof {
                        let c = self.config;
                        if c.faults@.len() > 0 {
                            let (j, t) = choose|j: int, t: int|
                                0 <= j < c.pod_count && 0 <= t < c.faults@.len() && #[trigger] injected(
                                    s1,
                                    *self,
                                    s1.upcoming(),
                                    j,
                                    fault_types_of(c.faults@)[t],
                                );
                            let ft = fault_types_of(c.faults@)[t];
                            let f = choose|f: SimFault|
                                f.id == self.events().last().kind->FaultInjected_fault_id && #[trigger] fault_placed(
                                    s1,
                                    *self,
                                    f,
                                    ft,
                                    NodeId((j + 1) as u64),
                                );
                            assert(fault_placed(*old(self), *self, f, ft, NodeId((j + 1) as u64)));
                            assert(injected(*old(self), *self, old(self).upcoming().skip(1), j, ft));
                        }
                    }
                    assert(fault_fired(*old(self), *self, old(self).upcoming().skip(1)));
                    DstStep::FaultDelayNeeded(rng)
                }
            },
        }
    }

    /// Takes back the fault scheduler's generator, after the delay to the
    /// next fault (at most 30 s) was drawn from it, and sets the next fault
    /// timer that delay from now.
    pub fn resume(&mut self, rng: StdRng, delay_millis: u64)
        requires
            old(self).wf(),
            old(self).phase() == DstPhase::AwaitingDelay,
            delay_millis <= MAX_FAULT_DELAY_MILLIS,
        ensures
            final(self).wf(),
            final(self).phase() == DstPhase::Running,
            final(self).config() == old(self).config(),
            final(self).events() == old(self).events(),
            final(self).active() == old(self).active(),
            final(self).partitions() == old(self).partitions(),
            final(self).total_faults() == old(self).total_faults(),
            final(self).total_failures() == old(self).total_failures(),
            final(self).now() == old(self).now(),
            rescheduled(
                old(self).upcoming(),
                final(self).upcoming(),
                VirtualTime((old(self).now().0 + delay_millis * NANOS_PER_MILLI) as u64),
                FAULT_PRIORITY,
                SimTimer::ScheduleFault,
            ),
    {
        self.scheduler.rng = rng;
        let d = VirtualTime::from_millis(delay_millis);
        let ghost pending = self.clock.pending();
        let ghost now = self.clock.time();
        let tid = self.clock.schedule_after(d, FAULT_PRIORITY, SimTimer::ScheduleFault);
        self.timers_scheduled = self.timers_scheduled + 1;
        self.phase = DstPhase::Running;
        proof {
            let t = Timer {
                wake_time: VirtualTime((now.0 + delay_millis * NANOS_PER_MILLI) as u64),
                callback_id: tid,
                priority: FAULT_PRIORITY,
                payload: SimTimer::ScheduleFault,
            };
            let k = choose|k: int| 0 <= k <= pending.len() && self.clock.pending() == #[trigger] pending.insert(k, t);
            lemma_timers_insert(pending, k, t, self.config);
            let head = self.batch@.skip(self.pos as int);
            lemma_insert_in_tail(head, pending, k, t);
            assert(self.upcoming() == old(self).upcoming().insert(head.len() + k, t));
            assert(0 <= head.len() + k <= old(self).upcoming().len());
        }
    }
}

/// What `xxhash_rust::xxh64::xxh64` returns for `data` and `seed`.
pub uninterp spec fn xxh64_digest(data: Seq<u8>, seed: u64) -> u64;

/// `xxhash_rust::xxh64::xxh64`: the 64-bit xxHash of `data` under `seed`.
/// The result is named; it depends on the bytes and the seed alone.
#[verifier::external_body]
fn xxh64(data: &[u8], seed: u64) -> (h: u64)
    ensures
        h == xxh64_digest(data@, seed),
{
    xxhash_rust::xxh64::xxh64(data, seed)
}

/// A character inside a JSON string: quotes, backslashes and control
/// characters escaped (the usual short escapes, `\u00XX` for the others).
pub open spec fn json_char(c: char) -> Seq<char> {
    if c == '"' {
        seq!['\\', '"']
    } else if c == '\\' {
        seq!['\\', '\\']
    } else if c == '\n' {
        seq!['\\', 'n']
    } else if c == '\r' {
        seq!['\\', 'r']
    } else if c == '\t' {
        seq!['\\', 't']
    } else if c == '\u{8}' {
        seq!['\\', 'b']
    } else if c == '\u{c}' {
        seq!['\\', 'f']
    } else if (c as u32) < 0x20 {
        seq!['\\', 'u', '0', '0', hex_digit_char((c as u32 / 16) as nat), hex_digit_char((c as u32 % 16) as nat)]
    } else {
        seq![c]
    }
}

/// A text's characters escaped for a JSON string.
pub open spec fn json_escaped(s: Seq<char>) -> Seq<char>
    decreases s.len(),
{
    if s.len() == 0 {
        Seq::empty()
    } else {
        json_escaped(s.drop_last()) + json_char(s.last())
    }
}

/// A text as a JSON string.
pub open spec fn json_string(s: Seq<char>) -> Seq<char> {
    seq!['"'] + json_escaped(s) + seq!['"']
}

/// An event's kind as JSON: an object with the variant's name as its one
/// key, whose value holds the fields in order; durations in seconds are
/// written as floating-point numbers (`60.0`), fault ids as hyphenated UUID
/// strings, and a failed probe carries a `null` latency.
pub open spec fn kind_json(k: DstEventKind) -> Seq<char> {
    match k {
        DstEventKind::SimulationStarted { seed, duration_secs } => "{\"SimulationStarted\":{\"seed\":"@
            + decimal_chars(seed as nat) + ",\"duration_secs\":"@ + decimal_chars(duration_secs as nat)
            + ".0}}"@,
        DstEventKind::ProbeSuccess { probe_name, latency_ms, status_code } => "{\"ProbeSuccess\":{\"probe_name\":"@
            + json_string(probe_name@) + ",\"latency_ms\":"@ + decimal_chars(latency_ms as nat)
            + ",\"status_code\":"@ + decimal_chars(status_code as nat) + "}}"@,
        DstEventKind::ProbeFailed { probe_name, error } => "{\"ProbeFailed\":{\"probe_name\":"@ + json_string(
            probe_name@,
        ) + ",\"error\":"@ + json_string(error@) + ",\"latency_ms\":null}}"@,
        DstEventKind::FaultInjected { fault_id, fault_kind, target, duration_secs } => "{\"FaultInjected\":{\"fault_id\":\""@
            + hyphenated_text(fault_id@) + "\",\"fault_kind\":"@ + json_string(fault_kind@) + ",\"target\":"@
            + json_string(target@) + ",\"duration_secs\":"@ + decimal_chars(duration_secs as nat) + ".0}}"@,
        DstEventKind::FaultReverted { fault_id } => "{\"FaultReverted\":{\"fault_id\":\""@ + hyphenated_text(
            fault_id@,
        ) + "\"}}"@,
        DstEventKind::SimulationEnded { total_faults, total_failures } => "{\"SimulationEnded\":{\"total_faults\":"@
            + decimal_chars(total_faults as nat) + ",\"total_failures\":"@ + decimal_chars(total_failures as nat)
            + "}}"@,
    }
}

/// An event in the timeline encoding: its id's sixteen bytes, its virtual
/// time in nanoseconds (sixteen bytes, little-endian), the length in bytes of
/// its kind's JSON (four bytes, little-endian), then that JSON in UTF-8.
pub open spec fn event_bytes(e: DstEvent) -> Seq<u8> {
    let json = encode_utf8(kind_json(e.kind));
    e.id@ + spec_u128_to_le_bytes(e.elapsed.0 as u128) + spec_u32_to_le_bytes(json.len() as u32) + json
}

/// A timeline in its encoding: its events' encodings one after another.
pub open spec fn timeline_bytes(s: Seq<DstEvent>) -> Seq<u8>
    decreases s.len(),
{
    if s.len() == 0 {
        Seq::empty()
    } else {
        timeline_bytes(s.drop_last()) + event_bytes(s.last())
    }
}

/// Appends bytes.
fn push_bytes(out: &mut Vec<u8>, b: Vec<u8>)
    ensures
        final(out)@ == old(out)@ + b@,
{
    let mut b = b;
    out.append(&mut b);
}

/// Appends the sixteen bytes of an id.
fn push_id(out: &mut Vec<u8>, id: &[u8; 16])
    ensures
        final(out)@ == old(out)@ + id@,
{
    let ghost start = out@;
    let mut i: usize = 0;
    while i < 16
        invariant
            i <= 16,
            id@.len() == 16,
            out@ == start + id@.take(i as int),
        decreases 16 - i,
    {
        out.push(id[i]);
        assert(id@.take(i + 1) =~= id@.take(i as int).push(id@[i as int]));
        i = i + 1;
    }
    assert(id@.take(16) =~= id@);
}

/// Appends a text as a JSON string.
fn push_json_string(out: &mut String, s: &str)
    ensures
        final(out)@ == old(out)@ + json_string(s@),
{
    let cs = chars_of(s);
    let ghost start = out@;
    push_char(out, '"');
    let hex: [char; 16] = ['0', '1', '2', '3', '4', '5', '6', '7', '8', '9', 'a', 'b', 'c', 'd', 'e', 'f'];
    assert(hex@ =~= seq!['0', '1', '2', '3', '4', '5', '6', '7', '8', '9', 'a', 'b', 'c', 'd', 'e', 'f']);
    let mut i: usize = 0;
    while i < cs.len()
        invariant
            i <= cs@.len(),
            cs@ == s@,
            hex@ == seq!['0', '1', '2', '3', '4', '5', '6', '7', '8', '9', 'a', 'b', 'c', 'd', 'e', 'f'],
            out@ == start + seq!['"'] + json_escaped(cs@.take(i as int)),
        decreases cs@.len() - i,
    {
        let c = cs[i];
        let ghost before = out@;
        if c == '"' {
            push_str(out, "\\\"");
        } else if c == '\\' {
            push_str(out, "\\\\");
        } else if c == '\n' {
            push_str(out, "\\n");
        } else if c == '\r' {
            push_str(out, "\\r");
        } else if c == '\t' {
            push_str(out, "\\t");
        } else if c == '\u{8}' {
            push_str(out, "\\b");
        } else if c == '\u{c}' {
            push_str(out, "\\f");
        } else if (c as u32) < 0x20 {
            push_char(out, '\\');
            push_char(out, 'u');
            push_char(out, '0');
            push_char(out, '0');
            push_char(out, hex[(c as u32 / 16) as usize]);
            push_char(out, hex[(c as u32 % 16) as usize]);
        } else {
            push_char(out, c);
        }
        proof {
            reveal_strlit("\\\"");
            reveal_strlit("\\\\");
            reveal_strlit("\\n");
            reveal_strlit("\\r");
            reveal_strlit("\\t");
            reveal_strlit("\\b");
            reveal_strlit("\\f");
            assert(out@ =~= before + json_char(c));
            let t = cs@.take(i + 1);
            assert(t.drop_last() =~= cs@.take(i as int));
            assert(t.last() == c);
        }
        i = i + 1;
    }
    push_char(out, '"');
    assert(cs@.take(cs@.len() as int) =~= cs@);
    assert(out@ =~= start + json_string(s@));
}

/// The JSON of an event's kind.
fn kind_json_text(k: &DstEventKind) -> (s: String)
    ensures
        s@ == kind_json(*k),
{
    let mut s = String::new();
    match k {
        DstEventKind::SimulationStarted { seed, duration_secs } => {
            push_str(&mut s, "{\"SimulationStarted\":{\"seed\":");
            push_decimal(&mut s, *seed);
            push_str(&mut s, ",\"duration_secs\":");
            push_decimal(&mut s, *duration_secs);
            push_str(&mut s, ".0}}");
        },
        DstEventKind::ProbeSuccess { probe_name, latency_ms, status_code } => {
            push_str(&mut s, "{\"ProbeSuccess\":{\"probe_name\":");
            push_json_string(&mut s, probe_name.as_str());
            push_str(&mut s, ",\"latency_ms\":");
            push_decimal(&mut s, *latency_ms);
            push_str(&mut s, ",\"status_code\":");
            push_decimal(&mut s, *status_code as u64);
            push_str(&mut s, "}}");
        },
        DstEventKind::ProbeFailed { probe_name, error } => {
            push_str(&mut s, "{\"ProbeFailed\":{\"probe_name\":");
            push_json_string(&mut s, probe_name.as_str());
            push_str(&mut s, ",\"error\":");
            push_json_string(&mut s, error.as_str());
            push_str(&mut s, ",\"latency_ms\":null}}");
        },
        DstEventKind::FaultInjected { fault_id, fault_kind, target, duration_secs } => {
            push_str(&mut s, "{\"FaultInjected\":{\"fault_id\":\"");
            let id_text = uuid_hyphenated(*fault_id);
            push_str(&mut s, id_text.as_str());
            push_str(&mut s, "\",\"fault_kind\":");
            push_json_string(&mut s, fault_kind.as_str());
            push_str(&mut s, ",\"target\":");
            push_json_string(&mut s, target.as_str());
            push_str(&mut s, ",\"duration_secs\":");
            push_decimal(&mut s, *duration_secs);
            push_str(&mut s, ".0}}");
        },
        DstEventKind::FaultReverted { fault_id } => {
            push_str(&mut s, "{\"FaultReverted\":{\"fault_id\":\"");
            let id_text = uuid_hyphenated(*fault_id);
            push_str(&mut s, id_text.as_str());
            push_str(&mut s, "\"}}");
        },
        DstEventKind::SimulationEnded { total_faults, total_failures } => {
            push_str(&mut s, "{\"SimulationEnded\":{\"total_faults\":");
            push_decimal(&mut s, *total_faults as u64);
            push_str(&mut s, ",\"total_failures\":");
            push_decimal(&mut s, *total_failures as u64);
            push_str(&mut s, "}}");
        },
    }
    assert(s@ =~= kind_json(*k));
    s
}

/// Appends an event in the timeline encoding.
fn push_event(out: &mut Vec<u8>, e: &DstEvent)
    ensures
        final(out)@ == old(out)@ + event_bytes(*e),
{
    let ghost start = out@;
    push_id(out, &e.id);
    push_bytes(out, u128_to_le_bytes(e.elapsed.0 as u128));
    let json = kind_json_text(&e.kind);
    let bytes = json.as_str().as_bytes();
    push_bytes(out, u32_to_le_bytes(bytes.len() as u32));
    push_bytes(out, slice_to_vec(bytes));
    assert(out@ =~= start + event_bytes(*e));
}

/// The hash of a timeline: the 64-bit xxHash (seed 0) of its encoding.
pub fn timeline_hash(events: &[DstEvent]) -> (h: u64)
    ensures
        h == xxh64_digest(timeline_bytes(events@), 0),
{
    let mut data: Vec<u8> = Vec::new();
    let mut i: usize = 0;
    while i < events.len()
        invariant
            i <= events@.len(),
            data@ == timeline_bytes(events@.take(i as int)),
        decreases events@.len() - i,
    {
        push_event(&mut data, &events[i]);
        proof {
            let t = events@.take(i + 1);
            assert(t.drop_last() =~= events@.take(i as int));
            assert(t.last() == events@[i as int]);
        }
        i = i + 1;
    }
    assert(events@.take(events@.len() as int) =~= events@);
    xxh64(data.as_slice(), 0)
}

/// A complete timeline of a run with configuration `c`: it opens with the
/// run's start at time zero and closes with its end at the run's duration,
/// carrying the totals; its events are in time order and none is after the
/// end; the totals count its injected faults and failed probes.
pub open spec fn complete_timeline(s: Seq<DstEvent>, c: DstConfig, total_faults: usize, total_failures: usize) -> bool {
    &&& s.len() >= 2
    &&& start_event_ok(s[0], c)
    &&& end_event_ok(s.last(), c, total_faults, total_failures)
    &&& in_time_order(s)
    &&& forall|i: int| 0 <= i < s.len() ==> (#[trigger] s[i]).elapsed.0 <= c.duration.0
    &&& total_faults == count_injected(s)
    &&& total_failures == count_failed(s)
}

impl DstRun {
    /// The finished run's timeline, its hash and its totals.
    pub fn into_result(self) -> (r: DstResult)
        requires
            self.wf(),
            self.phase() == DstPhase::Finished,
        ensures
            r.events@ == self.events(),
            r.seed == self.config().seed,
            r.total_faults == self.total_faults(),
            r.total_failures == self.total_failures(),
            r.hash == xxh64_digest(timeline_bytes(self.events()), 0),
            complete_timeline(r.events@, self.config(), r.total_faults, r.total_failures),
            quiet_run(self.config()) ==> r.total_faults == 0 && r.total_failures == 0 && forall|i: int|
                0 <= i < r.events@.len() ==> !((#[trigger] r.events@[i]).kind is ProbeFailed)
                    && !(r.events@[i].kind is FaultInjected),
    {
        let hash = timeline_hash(self.events.as_slice());
        proof {
            if quiet_run(self.config) {
                lemma_no_failures(self.events@);
                lemma_no_injections(self.events@);
            }
        }
        proof {
            if self.events@.len() < 2 {
                assert(self.events@.last() == self.events@[0]);
            }
        }
        DstResult {
            events: self.events,
            hash,
            seed: self.config.seed,
            total_faults: self.total_faults,
            total_failures: self.total_failures,
        }
    }
}

/// The line a terminal shows for an event.
pub open spec fn event_message_text(k: DstEventKind) -> Seq<char> {
    match k {
        DstEventKind::SimulationStarted { .. } => "🚀 Simulation started"@,
        DstEventKind::SimulationEnded { total_faults, total_failures } => "🏁 Simulation ended ("@
            + decimal_chars(total_faults as nat) + " faults, "@ + decimal_chars(total_failures as nat)
            + " failures)"@,
        DstEventKind::FaultInjected { fault_kind, target, .. } => "💥 "@ + fault_kind@ + " → "@ + target@,
        DstEventKind::FaultReverted { .. } => "♻️  Fault reverted"@,
        DstEventKind::ProbeSuccess { probe_name, latency_ms, .. } => "✅ "@ + probe_name@ + " ("@
            + decimal_chars(latency_ms as nat) + "ms)"@,
        DstEventKind::ProbeFailed { probe_name, error } => "❌ "@ + probe_name@ + " — "@ + error@,
    }
}

impl DstEventKind {
    /// The line a terminal shows for the event.
    pub fn message(&self) -> (s: String)
        ensures
            s@ == event_message_text(*self),
    {
        let mut s = String::new();
        match self {
            DstEventKind::SimulationStarted { .. } => push_str(&mut s, "🚀 Simulation started"),
            DstEventKind::SimulationEnded { total_faults, total_failures } => {
                push_str(&mut s, "🏁 Simulation ended (");
                push_decimal(&mut s, *total_faults as u64);
                push_str(&mut s, " faults, ");
                push_decimal(&mut s, *total_failures as u64);
                push_str(&mut s, " failures)");
            },
            DstEventKind::FaultInjected { fault_kind, target, .. } => {
                push_str(&mut s, "💥 ");
                push_str(&mut s, fault_kind.as_str());
                push_str(&mut s, " → ");
                push_str(&mut s, target.as_str());
            },
            DstEventKind::FaultReverted { .. } => push_str(&mut s, "♻️  Fault reverted"),
            DstEventKind::ProbeSuccess { probe_name, latency_ms, .. } => {
                push_str(&mut s, "✅ ");
                push_str(&mut s, probe_name.as_str());
                push_str(&mut s, " (");
                push_decimal(&mut s, *latency_ms);
                push_str(&mut s, "ms)");
            },
            DstEventKind::ProbeFailed { probe_name, error } => {
                push_str(&mut s, "❌ ");
                push_str(&mut s, probe_name.as_str());
                push_str(&mut s, " — ");
                push_str(&mut s, error.as_str());
            },
        }
        s
    }
}

impl DstConfig {
    /// Whether the run's clock arithmetic stays within 64-bit nanoseconds
    /// (what [`DstRun::start`] requires).
    pub fn fits(&self) -> (b: bool)
        ensures
            b == config_fits(*self),
    {
        let d = self.duration.0;
        let p = self.probe_interval.0;
        let span = PROBE_STAGGER_MILLIS * NANOS_PER_MILLI;
        d <= u64::MAX - p && d <= u64::MAX - MAX_FAULT_DELAY_MILLIS * NANOS_PER_MILLI && (self.pod_count as u64)
            <= (u64::MAX - p) / span
    }
}

} // verus!
