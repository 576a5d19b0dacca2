//! Deterministic simulation testing: a discrete-event run of HTTP probes and
//! injected faults over the virtual clock and network, in which the same seed
//! gives the same timeline.
//!
//! The run advances one timer at a time. When a fault has been scheduled, the
//! delay until the next one is drawn by the caller from the scheduler's
//! generator (the draw is in fractional seconds), and handed back.

use vstd::prelude::*;
use crate::fault::scheduler::FaultType;
use crate::text::{decimal_chars, push_decimal, push_str, same_str};
use crate::types::NodeId;

verus! {

/// Timers of the run's own control (its end) fire first at a given instant.
pub const CONTROL_PRIORITY: u8 = 0;

/// Then fault injections and reverts.
pub const FAULT_PRIORITY: u8 = 5;

/// Then probes.
pub const PROBE_PRIORITY: u8 = 10;

/// Why a simulation cannot start.
#[derive(Debug, Clone, PartialEq, Eq)]
pub enum DstError {
    /// No pod to probe.
    NoPods,
    /// Probes would never advance the clock.
    ZeroProbeInterval,
    /// A fault name that is not one of the six kinds.
    UnknownFault { name: String },
}

/// The message of a start error.
pub open spec fn dst_error_text(e: DstError) -> Seq<char> {
    match e {
        DstError::NoPods => "pod_count must be at least 1"@,
        DstError::ZeroProbeInterval => "probe_interval must be greater than 0"@,
        DstError::UnknownFault { name } => "Unknown fault type '"@ + name@
            + "'. Supported: crash, latency, partition, stress, dns, eviction"@,
    }
}

impl DstError {
    /// The error's message.
    pub fn message(&self) -> (s: String)
        ensures
            s@ == dst_error_text(*self),
    {
        let mut s = String::new();
        match self {
            DstError::NoPods => push_str(&mut s, "pod_count must be at least 1"),
            DstError::ZeroProbeInterval => push_str(&mut s, "probe_interval must be greater than 0"),
            DstError::UnknownFault { name } => {
                push_str(&mut s, "Unknown fault type '");
                push_str(&mut s, name.as_str());
                push_str(&mut s, "'. Supported: crash, latency, partition, stress, dns, eviction");
            },
        }
        s
    }
}

/// The fault type a configured name stands for; parameters are left at zero,
/// to be drawn when the fault is injected.
pub open spec fn fault_type_named(name: Seq<char>) -> Option<FaultType> {
    if name == "crash"@ {
        Some(FaultType::Crash)
    } else if name == "latency"@ {
        Some(FaultType::Latency { delay_ms: 0, jitter_ms: 0 })
    } else if name == "partition"@ {
        Some(FaultType::Partition)
    } else if name == "stress"@ {
        Some(FaultType::Stress { cpu_workers: 0, mem_bytes: 0 })
    } else if name == "dns"@ {
        Some(FaultType::Dns)
    } else if name == "eviction"@ {
        Some(FaultType::Eviction)
    } else {
        None
    }
}

/// The fault type named `name`, if it is one of the six.
pub fn fault_type_from_name(name: &str) -> (r: Option<FaultType>)
    ensures
        r == fault_type_named(name@),
{
    if same_str(name, "crash") {
        Some(FaultType::Crash)
    } else if same_str(name, "latency") {
        Some(FaultType::Latency { delay_ms: 0, jitter_ms: 0 })
    } else if same_str(name, "partition") {
        Some(FaultType::Partition)
    } else if same_str(name, "stress") {
        Some(FaultType::Stress { cpu_workers: 0, mem_bytes: 0 })
    } else if same_str(name, "dns") {
        Some(FaultType::Dns)
    } else if same_str(name, "eviction") {
        Some(FaultType::Eviction)
    } else {
        None
    }
}

/// Every name in `names` is a known fault.
pub open spec fn all_known(names: Seq<String>) -> bool {
    forall|i: int| 0 <= i < names.len() ==> fault_type_named((#[trigger] names[i])@) is Some
}

/// The fault types of a list of known names, in order.
pub open spec fn fault_types_of(names: Seq<String>) -> Seq<FaultType> {
    names.map_values(|s: String| fault_type_named(s@)->0)
}

/// The fault types of the configured names, in order; the first unknown name
/// is an error.
pub fn fault_types_from_names(names: &[String]) -> (r: Result<Vec<FaultType>, DstError>)
    ensures
        all_known(names@) ==> r == Ok::<Vec<FaultType>, DstError>(r->Ok_0) && r->Ok_0@
            == fault_types_of(names@),
        !all_known(names@) ==> (r matches Err(DstError::UnknownFault { name }) && exists|k: int|
            0 <= k < names@.len() && fault_type_named(names@[k]@) is None && (forall|i: int|
                0 <= i < k ==> fault_type_named((#[trigger] names@[i])@) is Some) && name@
                == names@[k]@),
{
    let mut v: Vec<FaultType> = Vec::new();
    let mut i: usize = 0;
    while i < names.len()
        invariant
            i <= names@.len(),
            forall|j: int| 0 <= j < i ==> fault_type_named((#[trigger] names@[j])@) is Some,
            v@ == fault_types_of(names@.take(i as int)),
        decreases names@.len() - i,
    {
        match fault_type_from_name(names[i].as_str()) {
            Some(t) => {
                v.push(t);
                assert(fault_types_of(names@.take(i + 1)) =~= fault_types_of(names@.take(i as int)).push(t));
            },
            None => {
                return Err(DstError::UnknownFault { name: names[i].clone() });
            },
        }
        i = i + 1;
    }
    assert(names@.take(i as int) =~= names@);
    Ok(v)
}

/// The kind name a fault is reported under.
pub open spec fn fault_kind_text(t: FaultType) -> Seq<char> {
    match t {
        FaultType::Crash => "crash"@,
        FaultType::Latency { .. } => "latency"@,
        FaultType::Partition => "partition"@,
        FaultType::Stress { .. } => "stress"@,
        FaultType::Dns => "dns"@,
        FaultType::Eviction => "eviction"@,
    }
}

/// How long an injected fault lasts, in seconds.
pub open spec fn fault_duration_secs(t: FaultType) -> u64 {
    match t {
        FaultType::Crash => 15,
        FaultType::Latency { .. } => 15,
        FaultType::Partition => 20,
        FaultType::Stress { .. } => 10,
        FaultType::Dns => 10,
        FaultType::Eviction => 15,
    }
}

/// The kind name of a fault and how many seconds it lasts.
pub fn fault_plan(t: FaultType) -> (r: (&'static str, u64))
    ensures
        r.0@ == fault_kind_text(t),
        r.1 == fault_duration_secs(t),
{
    match t {
        FaultType::Crash => ("crash", 15),
        FaultType::Latency { .. } => ("latency", 15),
        FaultType::Partition => ("partition", 20),
        FaultType::Stress { .. } => ("stress", 10),
        FaultType::Dns => ("dns", 10),
        FaultType::Eviction => ("eviction", 15),
    }
}

/// How much a latency fault slows a probe: a fixed delay plus a random
/// jitter below `jitter_ms`, in milliseconds.
#[derive(Debug, Clone, Copy, PartialEq, Eq, Structural)]
pub struct LatencyParams {
    pub delay_ms: u32,
    pub jitter_ms: u32,
}

/// A fault in effect during a run.
#[derive(Debug, Clone, Copy, PartialEq, Eq)]
pub struct SimFault {
    /// The fault's id (the bytes of a version-4 UUID).
    pub id: [u8; 16],
    /// What kind of fault it is.
    pub fault_type: FaultType,
    /// The node it hits.
    pub target_node: NodeId,
    /// The network partition it set up, if any.
    pub partition_id: Option<u64>,
    /// The slowdown of a latency fault.
    pub latency_params: Option<LatencyParams>,
}

/// Why a probe failed.
#[derive(Debug, Clone, Copy, PartialEq, Eq, Structural)]
pub enum ProbeFailure {
    /// The pod is crashed or evicted.
    Crashed,
    /// The pod is cut off from the prober.
    Partitioned,
    /// The pod's name does not resolve.
    DnsBlocked,
}

/// What becomes of a probe.
#[derive(Debug, Clone, Copy, PartialEq, Eq, Structural)]
pub enum ProbeVerdict {
    /// It fails.
    Fails(ProbeFailure),
    /// It succeeds, slowed as given when a latency or stress fault hits the
    /// pod.
    Succeeds(Option<LatencyParams>),
}

/// Some fault of the given shape hits `target`.
pub open spec fn crashes(faults: Seq<SimFault>, target: NodeId) -> bool {
    exists|i: int|
        0 <= i < faults.len() && (#[trigger] faults[i]).target_node == target && (faults[i].fault_type
            == FaultType::Crash || faults[i].fault_type == FaultType::Eviction)
}

/// A DNS fault hits `target`.
pub open spec fn dns_blocked(faults: Seq<SimFault>, target: NodeId) -> bool {
    exists|i: int|
        0 <= i < faults.len() && (#[trigger] faults[i]).target_node == target && faults[i].fault_type
            == FaultType::Dns
}

/// A latency or stress fault hits `target`.
pub open spec fn slowed(faults: Seq<SimFault>, target: NodeId) -> bool {
    exists|i: int|
        0 <= i < faults.len() && (#[trigger] faults[i]).target_node == target && (faults[i].fault_type
            is Latency || faults[i].fault_type is Stress)
}

/// The latency parameters that the faults on `target` leave, walking them in
/// order: a latency fault sets its own, a stress fault sets 100 ms plus up to
/// 200 ms when
/// none is set yet.
pub open spec fn latency_params_for(faults: Seq<SimFault>, target: NodeId) -> Option<LatencyParams>
    decreases faults.len(),
{
    if faults.len() == 0 {
        None
    } else {
        let p = latency_params_for(faults.drop_last(), target);
        let f = faults.last();
        if f.target_node == target {
            match f.fault_type {
                FaultType::Latency { .. } => f.latency_params,
                FaultType::Stress { .. } => if p is None {
                    Some(LatencyParams { delay_ms: 100, jitter_ms: 200 })
                } else {
                    p
                },
                _ => p,
            }
        } else {
            p
        }
    }
}

/// The fate of a probe of `target`: a crash or eviction fails it first, then
/// a partition, then a DNS fault; otherwise it succeeds, slowed when a latency
/// or stress fault hits the pod (by 200 ms plus up to 100 ms if no parameters
/// were set).
pub open spec fn probe_verdict_of(faults: Seq<SimFault>, target: NodeId, partitioned: bool) -> ProbeVerdict {
    if crashes(faults, target) {
        ProbeVerdict::Fails(ProbeFailure::Crashed)
    } else if partitioned {
        ProbeVerdict::Fails(ProbeFailure::Partitioned)
    } else if dns_blocked(faults, target) {
        ProbeVerdict::Fails(ProbeFailure::DnsBlocked)
    } else if slowed(faults, target) {
        ProbeVerdict::Succeeds(
            Some(
                match latency_params_for(faults, target) {
                    Some(p) => p,
                    None => LatencyParams { delay_ms: 200, jitter_ms: 100 },
                },
            ),
        )
    } else {
        ProbeVerdict::Succeeds(None)
    }
}

/// Decides a probe of `target` from the faults in effect (in id order) and
/// whether a partition cuts the pod off.
pub fn probe_verdict(faults: &[SimFault], target: NodeId, partitioned: bool) -> (v: ProbeVerdict)
    ensures
        v == probe_verdict_of(faults@, target, partitioned),
{
    let mut is_crashed = false;
    let mut is_dns_blocked = false;
    let mut has_latency = false;
    let mut params: Option<LatencyParams> = None;
    let mut i: usize = 0;
    while i < faults.len()
        invariant
            i <= faults@.len(),
            is_crashed == crashes(faults@.take(i as int), target),
            is_dns_blocked == dns_blocked(faults@.take(i as int), target),
            has_latency == slowed(faults@.take(i as int), target),
            params == latency_params_for(faults@.take(i as int), target),
        decreases faults@.len() - i,
    {
        let f = faults[i];
        let ghost s = faults@.take(i + 1);
        proof {
            assert(s.drop_last() =~= faults@.take(i as int));
            assert(s.last() == f);
            assert(s[i as int] == f);
            assert forall|j: int| 0 <= j < i implies s[j] == faults@.take(i as int)[j] by {}
        }
        if f.target_node == target {
            match f.fault_type {
                FaultType::Crash | FaultType::Eviction => {
                    is_crashed = true;
                },
                FaultType::Dns => {
                    is_dns_blocked = true;
                },
                FaultType::Latency { .. } => {
                    has_latency = true;
                    params = f.latency_params;
                },
                FaultType::Stress { .. } => {
                    has_latency = true;
                    if params.is_none() {
                        params = Some(LatencyParams { delay_ms: 100, jitter_ms: 200 });
                    }
                },
                _ => {},
            }
        }
        i = i + 1;
    }
    assert(faults@.take(i as int) =~= faults@);
    if is_crashed {
        ProbeVerdict::Fails(ProbeFailure::Crashed)
    } else if partitioned {
        ProbeVerdict::Fails(ProbeFailure::Partitioned)
    } else if is_dns_blocked {
        ProbeVerdict::Fails(ProbeFailure::DnsBlocked)
    } else if has_latency {
        ProbeVerdict::Succeeds(
            Some(
                match params {
                    Some(p) => p,
                    None => LatencyParams { delay_ms: 200, jitter_ms: 100 },
                },
            ),
        )
    } else {
        ProbeVerdict::Succeeds(None)
    }
}


/// `uuid::Builder::from_random_bytes(random).into_uuid()`, as its bytes: the
/// random bytes with the version nibble (high half of byte 6) set to 4 and the
/// top two bits of byte 8 set to the RFC 4122 variant `10`.
#[verifier::external_body]
pub(crate) fn uuid_v4_from_random(random: [u8; 16]) -> (id: [u8; 16])
    ensures
        id@ == random@.update(6, (random[6] & 0x0f) | 0x40).update(8, (random[8] & 0x3f) | 0x80),
{
    uuid::Builder::from_random_bytes(random).into_uuid().into_bytes()
}

/// The lowercase hexadecimal digit for `d` (below 16).
pub open spec fn hex_digit_char(d: nat) -> char {
    seq!['0', '1', '2', '3', '4', '5', '6', '7', '8', '9', 'a', 'b', 'c', 'd', 'e', 'f'][d as int]
}

/// The bytes `b[lo..hi]` as lowercase hexadecimal, two digits each.
pub open spec fn hex_run(b: Seq<u8>, lo: int, hi: int) -> Seq<char>
    decreases hi - lo,
{
    if lo >= hi {
        Seq::empty()
    } else {
        seq![hex_digit_char((b[lo] / 16) as nat), hex_digit_char((b[lo] % 16) as nat)] + hex_run(b, lo + 1, hi)
    }
}

/// The hyphenated form of a UUID's sixteen bytes: lowercase hexadecimal in
/// groups of 8, 4, 4, 4 and 12 digits joined by hyphens.
pub open spec fn hyphenated_text(b: Seq<u8>) -> Seq<char> {
    hex_run(b, 0, 4) + seq!['-'] + hex_run(b, 4, 6) + seq!['-'] + hex_run(b, 6, 8) + seq!['-'] + hex_run(
        b,
        8,
        10,
    ) + seq!['-'] + hex_run(b, 10, 16)
}

/// `uuid::Uuid::from_bytes(id).hyphenated().to_string()`: the UUID in its
/// hyphenated lowercase form.
#[verifier::external_body]
pub(crate) fn uuid_hyphenated(id: [u8; 16]) -> (s: String)
    ensures
        s@ == hyphenated_text(id@),
{
    uuid::Uuid::from_bytes(id).hyphenated().to_string()
}

/// `a` comes before `b`: at the first byte where they differ, `a`'s is the
/// smaller. This is the order of UUIDs.
pub open spec fn id_before(a: Seq<u8>, b: Seq<u8>) -> bool {
    exists|k: int|
        #![trigger a[k], b[k]]
        0 <= k < a.len() && k < b.len() && a.take(k) == b.take(k) && a[k] < b[k]
}

/// The id order is transitive.
pub proof fn lemma_id_before_transitive(a: Seq<u8>, b: Seq<u8>, c: Seq<u8>)
    requires
        id_before(a, b),
        id_before(b, c),
    ensures
        id_before(a, c),
{
    let k1 = choose|k: int|
        #![trigger a[k], b[k]]
        0 <= k < a.len() && k < b.len() && a.take(k) == b.take(k) && a[k] < b[k];
    let k2 = choose|k: int|
        #![trigger b[k], c[k]]
        0 <= k < b.len() && k < c.len() && b.take(k) == c.take(k) && b[k] < c[k];
    if k1 < k2 {
        assert(b.take(k2)[k1] == b[k1]);
        assert(c.take(k2)[k1] == c[k1]);
        assert(a.take(k1) =~= c.take(k1)) by {
            assert forall|j: int| 0 <= j < k1 implies #[trigger] a.take(k1)[j] == c.take(k1)[j] by {
                assert(a.take(k1)[j] == b.take(k1)[j]);
                assert(b.take(k2)[j] == c.take(k2)[j]);
            }
        }
        assert(0 <= k1 < a.len() && k1 < c.len() && a.take(k1) == c.take(k1) && a[k1] < c[k1]);
    } else if k2 < k1 {
        assert(a.take(k1)[k2] == b.take(k1)[k2]);
        assert(a.take(k2) =~= c.take(k2)) by {
            assert forall|j: int| 0 <= j < k2 implies #[trigger] a.take(k2)[j] == c.take(k2)[j] by {
                assert(a.take(k1)[j] == b.take(k1)[j]);
                assert(b.take(k2)[j] == c.take(k2)[j]);
            }
        }
        assert(0 <= k2 < a.len() && k2 < c.len() && a.take(k2) == c.take(k2) && a[k2] < c[k2]);
    } else {
        assert(a.take(k1) == c.take(k1));
        assert(0 <= k1 < a.len() && k1 < c.len() && a.take(k1) == c.take(k1) && a[k1] < c[k1]);
    }
}

/// No id comes before itself, nor before an id that comes before it.
pub proof fn lemma_id_before_asymmetric(a: Seq<u8>, b: Seq<u8>)
    requires
        id_before(a, b),
    ensures
        !id_before(b, a),
        a != b,
{
    let k1 = choose|k: int|
        #![trigger a[k], b[k]]
        0 <= k < a.len() && k < b.len() && a.take(k) == b.take(k) && a[k] < b[k];
    if id_before(b, a) {
        lemma_id_before_transitive(a, b, a);
        let k = choose|k: int|
            #![trigger a[k], a[k]]
            0 <= k < a.len() && k < a.len() && a.take(k) == a.take(k) && a[k] < a[k];
        assert(false);
    }
}

/// How two ids compare.
#[derive(Debug, Clone, Copy, PartialEq, Eq, Structural)]
enum IdOrder {
    Before,
    Same,
    After,
}

/// Compares two ids byte by byte.
fn compare_ids(a: &[u8; 16], b: &[u8; 16]) -> (r: IdOrder)
    ensures
        r == IdOrder::Before <==> id_before(a@, b@),
        r == IdOrder::Same <==> a@ == b@,
        r == IdOrder::After <==> id_before(b@, a@),
{
    let mut i: usize = 0;
    while i < 16
        invariant
            i <= 16,
            a@.len() == 16,
            b@.len() == 16,
            a@.take(i as int) == b@.take(i as int),
        decreases 16 - i,
    {
        if a[i] < b[i] {
            assert(0 <= i < a@.len() && i < b@.len() && a@.take(i as int) == b@.take(i as int)
                && a@[i as int] < b@[i as int]);
            proof {
                lemma_id_before_asymmetric(a@, b@);
            }
            return IdOrder::Before;
        }
        if b[i] < a[i] {
            assert(0 <= i < b@.len() && i < a@.len() && b@.take(i as int) == a@.take(i as int)
                && b@[i as int] < a@[i as int]);
            proof {
                lemma_id_before_asymmetric(b@, a@);
            }
            return IdOrder::After;
        }
        assert(a@.take(i + 1) =~= b@.take(i + 1)) by {
            assert forall|j: int| 0 <= j < i + 1 implies #[trigger] a@.take(i + 1)[j] == b@.take(i + 1)[j] by {
                if j < i {
                    assert(a@.take(i as int)[j] == b@.take(i as int)[j]);
                }
            }
        }
        i = i + 1;
    }
    assert(a@.take(16) =~= a@);
    assert(b@.take(16) =~= b@);
    assert(a@ == b@);
    assert(!id_before(a@, b@)) by {
        if id_before(a@, b@) {
            lemma_id_before_asymmetric(a@, b@);
        }
    }
    IdOrder::Same
}

/// The faults are listed in strictly increasing id order.
pub open spec fn sorted_by_id(s: Seq<SimFault>) -> bool {
    forall|i: int, j: int| 0 <= i < j < s.len() ==> id_before((#[trigger] s[i]).id@, (#[trigger] s[j]).id@)
}

/// `r` is `s` with `f` in its place by id: replacing the fault with the same
/// id, or inserted where the ids before it are smaller.
pub open spec fn placed_by_id(s: Seq<SimFault>, f: SimFault, r: Seq<SimFault>) -> bool {
    exists|k: int|
        0 <= k <= s.len() && (forall|i: int| 0 <= i < k ==> id_before((#[trigger] s[i]).id@, f.id@))
            && (forall|i: int| k <= i < s.len() ==> !id_before((#[trigger] s[i]).id@, f.id@)) && r
            == if k < s.len() && s[k].id@ == f.id@ {
            s.update(k, f)
        } else {
            s.insert(k, f)
        }
}

/// Puts `f` among the faults in its place by id, replacing one with the same id.
pub(crate) fn place_fault(v: &mut Vec<SimFault>, f: SimFault)
    requires
        sorted_by_id(old(v)@),
    ensures
        sorted_by_id(final(v)@),
        placed_by_id(old(v)@, f, final(v)@),
{
    let ghost s = v@;
    let mut pos: usize = 0;
    while pos < v.len() && compare_ids(&v[pos].id, &f.id) == IdOrder::Before
        invariant
            v@ == s,
            sorted_by_id(s),
            pos <= s.len(),
            forall|i: int| 0 <= i < pos ==> id_before((#[trigger] s[i]).id@, f.id@),
        decreases s.len() - pos,
    {
        pos = pos + 1;
    }
    let ghost k = pos as int;
    proof {
        assert forall|i: int| k <= i < s.len() implies !id_before((#[trigger] s[i]).id@, f.id@) by {
            if id_before(s[i].id@, f.id@) {
                if i == k {
                } else {
                    lemma_id_before_transitive(s[k].id@, s[i].id@, f.id@);
                }
            }
        }
    }
    if pos < v.len() && compare_ids(&v[pos].id, &f.id) == IdOrder::Same {
        v.set(pos, f);
        proof {
            let r = v@;
            assert(r == s.update(k, f));
            assert forall|i: int, j: int| 0 <= i < j < r.len() implies id_before(
                (#[trigger] r[i]).id@,
                (#[trigger] r[j]).id@,
            ) by {
                if i == k {
                    assert(id_before(s[k].id@, s[j].id@));
                } else if j == k {
                    assert(id_before(s[i].id@, s[k].id@));
                }
            }
        }
    } else {
        v.insert(pos, f);
        proof {
            let r = v@;
            assert(r == s.insert(k, f));
            if k < s.len() {
                assert(id_before(f.id@, s[k].id@));
            }
            assert forall|i: int, j: int| 0 <= i < j < r.len() implies id_before(
                (#[trigger] r[i]).id@,
                (#[trigger] r[j]).id@,
            ) by {
                if j < k {
                    assert(r[i] == s[i] && r[j] == s[j]);
                } else if j == k {
                    assert(r[i] == s[i]);
                } else if i < k {
                    assert(r[i] == s[i] && r[j] == s[j - 1]);
                    assert(id_before(s[i].id@, s[j - 1].id@));
                } else if i == k {
                    assert(r[j] == s[j - 1]);
                    if k < j - 1 {
                        assert(id_before(s[k].id@, s[j - 1].id@));
                        lemma_id_before_transitive(f.id@, s[k].id@, s[j - 1].id@);
                    }
                } else {
                    assert(r[i] == s[i - 1] && r[j] == s[j - 1]);
                }
            }
        }
    }
}

/// Takes the fault with id `id` out of the faults, if one has it.
pub(crate) fn take_fault(v: &mut Vec<SimFault>, id: &[u8; 16]) -> (removed: Option<SimFault>)
    requires
        sorted_by_id(old(v)@),
    ensures
        sorted_by_id(final(v)@),
        match removed {
            Some(f) => exists|k: int|
                0 <= k < old(v)@.len() && old(v)@[k] == f && f.id@ == id@ && final(v)@ == old(
                    v,
                )@.remove(k),
            None => final(v)@ == old(v)@ && forall|i: int|
                0 <= i < old(v)@.len() ==> (#[trigger] old(v)@[i]).id@ != id@,
        },
{
    let ghost s = v@;
    let mut pos: usize = 0;
    while pos < v.len()
        invariant
            v@ == s,
            s == old(v)@,
            sorted_by_id(s),
            pos <= s.len(),
            forall|i: int| 0 <= i < pos ==> (#[trigger] s[i]).id@ != id@,
        decreases s.len() - pos,
    {
        if compare_ids(&v[pos].id, id) == IdOrder::Same {
            let f = v.remove(pos);
            assert(s[pos as int] == f && f.id@ == id@);
            proof {
                let r = v@;
                assert(r == s.remove(pos as int));
                assert forall|i: int, j: int| 0 <= i < j < r.len() implies id_before(
                    (#[trigger] r[i]).id@,
                    (#[trigger] r[j]).id@,
                ) by {
                    if j < pos {
                        assert(r[i] == s[i] && r[j] == s[j]);
                    } else if i < pos {
                        assert(r[i] == s[i] && r[j] == s[j + 1]);
                    } else {
                        assert(r[i] == s[i + 1] && r[j] == s[j + 1]);
                    }
                }
            }
            assert(0 <= pos < s.len() && s[pos as int] == f && f.id@ == id@ && v@ == s.remove(pos as int));
            return Some(f);
        }
        pos = pos + 1;
    }
    None
}

/// The error a failed probe reports.
pub open spec fn failure_text(r: ProbeFailure) -> Seq<char> {
    match r {
        ProbeFailure::Crashed => "connection refused (pod crashed)"@,
        ProbeFailure::Partitioned => "network unreachable (partitioned)"@,
        ProbeFailure::DnsBlocked => "DNS resolution failed"@,
    }
}

/// The error a failed probe reports.
pub fn failure_message(r: ProbeFailure) -> (s: String)
    ensures
        s@ == failure_text(r),
{
    let mut s = String::new();
    match r {
        ProbeFailure::Crashed => push_str(&mut s, "connection refused (pod crashed)"),
        ProbeFailure::Partitioned => push_str(&mut s, "network unreachable (partitioned)"),
        ProbeFailure::DnsBlocked => push_str(&mut s, "DNS resolution failed"),
    }
    s
}

/// The name of the `i`-th simulated pod.
pub open spec fn pod_name_text(i: nat) -> Seq<char> {
    "pod-"@ + decimal_chars(i)
}

/// The name of the probe of the `i`-th simulated pod.
pub open spec fn probe_name_text(i: nat) -> Seq<char> {
    "http/"@ + pod_name_text(i)
}

/// `pod-<i>`.
pub fn pod_name(i: usize) -> (s: String)
    ensures
        s@ == pod_name_text(i as nat),
{
    let mut s = String::new();
    push_str(&mut s, "pod-");
    push_decimal(&mut s, i as u64);
    s
}

/// `http/pod-<i>`.
pub fn probe_name(i: usize) -> (s: String)
    ensures
        s@ == probe_name_text(i as nat),
{
    let mut s = String::new();
    push_str(&mut s, "http/pod-");
    push_decimal(&mut s, i as u64);
    proof {
        reveal_strlit("http/pod-");
        reveal_strlit("http/");
        reveal_strlit("pod-");
        assert("http/pod-"@ =~= "http/"@ + "pod-"@);
    }
    assert(s@ =~= probe_name_text(i as nat));
    s
}

} // verus!
