//! The ledger of faults injected and not yet reverted, so that a graceful
//! shutdown can revert them all: how each kind is reverted, and which
//! faults go back on the ledger when their revert fails.

use vstd::prelude::*;
use std::time::Instant;
use crate::k8s::cluster::owned_strings;
use crate::k8s::fault_ops::{revert_latency_command, revert_partition_command, ActiveFaultKind};

verus! {

#[verifier::external_type_specification]
#[verifier::external_body]
pub struct ExInstant(Instant);

/// A fault that has been injected and not yet reverted.
#[derive(Debug)]
pub struct ActiveFault {
    /// Unique fault id (the UUID's 128 bits).
    pub fault_id: u128,
    /// What kind of fault it is.
    pub kind: ActiveFaultKind,
    /// Kubernetes namespace.
    pub namespace: String,
    /// Target pod name.
    pub pod_name: String,
    /// When the fault was injected.
    pub injected_at: Instant,
}

/// The faults currently injected, in the order they were tracked.
pub struct FaultTracker {
    active: Vec<ActiveFault>,
}

impl FaultTracker {
    /// The tracked faults, oldest first.
    pub closed spec fn faults(&self) -> Seq<ActiveFault> {
        self.active@
    }

    /// An empty ledger.
    pub fn new() -> (l: Self)
        ensures
            l.faults().len() == 0,
    {
        FaultTracker { active: Vec::new() }
    }

    /// Tracks a newly injected fault.
    pub fn track(&mut self, fault: ActiveFault)
        ensures
            final(self).faults() == old(self).faults().push(fault),
    {
        self.active.push(fault);
    }

    /// Stops tracking every fault with the given id (after it was reverted
    /// on its own); an unknown id changes nothing.
    pub fn untrack(&mut self, fault_id: u128)
        ensures
            final(self).faults() == old(self).faults().filter(|f: ActiveFault| f.fault_id != fault_id),
    {
        let ghost orig = self.active@;
        let mut rest: Vec<ActiveFault> = Vec::new();
        std::mem::swap(&mut rest, &mut self.active);
        let mut kept: Vec<ActiveFault> = Vec::new();
        let ghost mut i: int = 0;
        assert(orig.skip(0) =~= orig);
        assert(orig.take(0) =~= Seq::<ActiveFault>::empty());
        proof {
            reveal(Seq::filter);
        }
        while rest.len() > 0
            invariant
                0 <= i <= orig.len(),
                rest@ == orig.skip(i),
                kept@ == orig.take(i).filter(|f: ActiveFault| f.fault_id != fault_id),
            decreases rest@.len(),
        {
            proof {
                assert(orig.take(i + 1).drop_last() =~= orig.take(i));
                assert(orig.take(i + 1).last() == orig[i]);
                reveal(Seq::filter);
            }
            let f = rest.remove(0);
            assert(f == orig[i]);
            if f.fault_id != fault_id {
                kept.push(f);
            }
            proof {
                assert(rest@ =~= orig.skip(i + 1));
                i = i + 1;
            }
        }
        proof {
            assert(orig.take(i) =~= orig);
        }
        self.active = kept;
    }

    /// The number of tracked faults.
    pub fn active_count(&self) -> (n: usize)
        ensures
            n == self.faults().len(),
    {
        self.active.len()
    }

    /// Takes every tracked fault out, for reverting.
    pub fn take_all(&mut self) -> (taken: Vec<ActiveFault>)
        ensures
            taken@ == old(self).faults(),
            final(self).faults().len() == 0,
    {
        let mut taken: Vec<ActiveFault> = Vec::new();
        std::mem::swap(&mut taken, &mut self.active);
        taken
    }

    /// Puts faults whose revert did not succeed back on the ledger, after
    /// those tracked meanwhile.
    pub fn requeue(&mut self, faults: Vec<ActiveFault>)
        ensures
            final(self).faults() == old(self).faults() + faults@,
    {
        let ghost start = self.active@;
        let mut rest = faults;
        let ghost all = rest@;
        let ghost mut i: int = 0;
        assert(all.skip(0) =~= all);
        assert(all.take(0) =~= Seq::<ActiveFault>::empty());
        while rest.len() > 0
            invariant
                0 <= i <= all.len(),
                rest@ == all.skip(i),
                self.active@ == start + all.take(i),
            decreases rest@.len(),
        {
            let f = rest.remove(0);
            assert(f == all[i]);
            self.active.push(f);
            proof {
                assert(all.take(i + 1) =~= all.take(i).push(all[i]));
                assert(rest@ =~= all.skip(i + 1));
                i = i + 1;
            }
        }
        assert(all.take(i) =~= all);
    }
}

/// How a fault is reverted.
#[derive(Debug, Clone, PartialEq, Eq)]
pub enum RevertPlan {
    /// Run this network command in the pod, by the operator's inject method.
    NetworkCommand(Vec<String>),
    /// Remove the DNS blackhole.
    DnsRevert,
    /// Run `kubectl` with these arguments; failure is ignored.
    Kubectl(Vec<String>),
    /// Run this command in the pod's default container; failure is ignored.
    PodCommand(Vec<String>),
}

/// The text of each string in `v`.
pub open spec fn texts(v: Seq<String>) -> Seq<Seq<char>> {
    v.map_values(|s: String| s@)
}

/// How each kind of fault is reverted: latency by removing the qdisc, a
/// partition by removing its DROP rule, DNS by its own revert, and stress
/// by killing stress-ng (in the debug container it ran in, if any).
pub open spec fn revert_plan_of(fault: ActiveFault, plan: RevertPlan) -> bool {
    match fault.kind {
        ActiveFaultKind::NetworkLatency => plan matches RevertPlan::NetworkCommand(c) && texts(c@)
            == seq!["tc"@, "qdisc"@, "del"@, "dev"@, "eth0"@, "root"@],
        ActiveFaultKind::Partition { target_ip } => plan matches RevertPlan::NetworkCommand(c) && texts(c@)
            == seq!["iptables"@, "-D"@, "OUTPUT"@, "-d"@, target_ip@, "-j"@, "DROP"@],
        ActiveFaultKind::DnsFailure => plan == RevertPlan::DnsRevert,
        ActiveFaultKind::Stress { debug_container: Some(c) } => plan matches RevertPlan::Kubectl(a) && texts(a@)
            == seq![
            "exec"@,
            "-n"@,
            fault.namespace@,
            fault.pod_name@,
            "-c"@,
            c@,
            "--"@,
            "pkill"@,
            "-9"@,
            "stress-ng"@,
        ],
        ActiveFaultKind::Stress { debug_container: None } => plan matches RevertPlan::PodCommand(a) && texts(a@)
            == seq!["pkill"@, "-9"@, "stress-ng"@],
    }
}

/// How `fault` is reverted.
pub fn revert_plan(fault: &ActiveFault) -> (p: RevertPlan)
    ensures
        revert_plan_of(*fault, p),
{
    match &fault.kind {
        ActiveFaultKind::NetworkLatency => RevertPlan::NetworkCommand(revert_latency_command()),
        ActiveFaultKind::Partition { target_ip } => RevertPlan::NetworkCommand(
            revert_partition_command(target_ip.as_str()),
        ),
        ActiveFaultKind::DnsFailure => RevertPlan::DnsRevert,
        ActiveFaultKind::Stress { debug_container: Some(c) } => {
            let a = owned_strings(
                &[
                    "exec",
                    "-n",
                    fault.namespace.as_str(),
                    fault.pod_name.as_str(),
                    "-c",
                    c.as_str(),
                    "--",
                    "pkill",
                    "-9",
                    "stress-ng",
                ],
            );
            assert(texts(a@) =~= seq![
                "exec"@,
                "-n"@,
                fault.namespace@,
                fault.pod_name@,
                "-c"@,
                c@,
                "--"@,
                "pkill"@,
                "-9"@,
                "stress-ng"@,
            ]);
            RevertPlan::Kubectl(a)
        },
        ActiveFaultKind::Stress { debug_container: None } => {
            let a = owned_strings(&["pkill", "-9", "stress-ng"]);
            assert(texts(a@) =~= seq!["pkill"@, "-9"@, "stress-ng"@]);
            RevertPlan::PodCommand(a)
        },
    }
}

/// How the revert of one fault ended.
#[derive(Debug, Clone, PartialEq, Eq)]
pub enum RevertOutcome {
    Reverted,
    /// The revert failed with this message.
    Failed(String),
    /// The revert did not finish in time.
    TimedOut,
}

/// The outcomes to report, each with its fault id, in order.
pub open spec fn reported(outcomes: Seq<(ActiveFault, RevertOutcome)>) -> Seq<(u128, RevertOutcome)> {
    outcomes.map_values(|o: (ActiveFault, RevertOutcome)| (o.0.fault_id, o.1))
}

/// The faults to requeue: those whose revert did not succeed, in order.
pub open spec fn to_requeue(outcomes: Seq<(ActiveFault, RevertOutcome)>) -> Seq<ActiveFault> {
    outcomes.filter(|o: (ActiveFault, RevertOutcome)| o.1 != RevertOutcome::Reverted).map_values(
        |o: (ActiveFault, RevertOutcome)| o.0,
    )
}

/// Splits the outcomes of a round of reverts into what is reported (each
/// fault id with its outcome) and the faults to requeue.
pub fn settle_reverts(outcomes: Vec<(ActiveFault, RevertOutcome)>) -> (r: (Vec<(u128, RevertOutcome)>, Vec<ActiveFault>))
    ensures
        r.0@ == reported(outcomes@),
        r.1@ == to_requeue(outcomes@),
{
    let ghost all = outcomes@;
    let mut rest = outcomes;
    let mut report: Vec<(u128, RevertOutcome)> = Vec::new();
    let mut requeue: Vec<ActiveFault> = Vec::new();
    let ghost mut i: int = 0;
    assert(all.skip(0) =~= all);
    assert(all.take(0) =~= Seq::<(ActiveFault, RevertOutcome)>::empty());
    proof {
        reveal(Seq::filter);
    }
    while rest.len() > 0
        invariant
            0 <= i <= all.len(),
            rest@ == all.skip(i),
            report@ == reported(all.take(i)),
            requeue@ == to_requeue(all.take(i)),
        decreases rest@.len(),
    {
        proof {
            let t = all.take(i + 1);
            assert(t.drop_last() =~= all.take(i));
            assert(t.last() == all[i]);
            reveal(Seq::filter);
        }
        let (f, o) = rest.remove(0);
        assert((f, o) == all[i]);
        let id = f.fault_id;
        let reverted = match &o {
            RevertOutcome::Reverted => true,
            _ => false,
        };
        report.push((id, o));
        if !reverted {
            requeue.push(f);
        }
        proof {
            let t = all.take(i + 1);
            assert(reported(t) =~= reported(all.take(i)).push((all[i].0.fault_id, all[i].1)));
            let g = |o: (ActiveFault, RevertOutcome)| o.1 != RevertOutcome::Reverted;
            assert(t.filter(g) == if g(all[i]) {
                all.take(i).filter(g).push(all[i])
            } else {
                all.take(i).filter(g)
            });
            if g(all[i]) {
                assert(to_requeue(t) =~= to_requeue(all.take(i)).push(all[i].0));
            } else {
                assert(to_requeue(t) =~= to_requeue(all.take(i)));
            }
            assert(rest@ =~= all.skip(i + 1));
            i = i + 1;
        }
    }
    proof {
        assert(all.take(i) =~= all);
    }
    (report, requeue)
}


/// A round of reverts loses no fault: every fault whose revert failed or
/// timed out is requeued, and only those are.
pub proof fn unreverted_faults_are_requeued(outcomes: Seq<(ActiveFault, RevertOutcome)>)
    ensures
        forall|i: int|
            0 <= i < outcomes.len() && (#[trigger] outcomes[i]).1 != RevertOutcome::Reverted ==> to_requeue(
                outcomes,
            ).contains(outcomes[i].0),
        forall|f: ActiveFault|
            #[trigger] to_requeue(outcomes).contains(f) ==> exists|i: int|
                0 <= i < outcomes.len() && (#[trigger] outcomes[i]).1 != RevertOutcome::Reverted && outcomes[i].0
                    == f,
{
    let g = |o: (ActiveFault, RevertOutcome)| o.1 != RevertOutcome::Reverted;
    let kept = outcomes.filter(g);
    assert forall|i: int| 0 <= i < outcomes.len() && (#[trigger] outcomes[i]).1 != RevertOutcome::Reverted implies to_requeue(
        outcomes,
    ).contains(outcomes[i].0) by {
        outcomes.lemma_filter_contains(g, i);
        let k = choose|k: int| 0 <= k < kept.len() && kept[k] == outcomes[i];
        assert(to_requeue(outcomes)[k] == outcomes[i].0);
    }
    assert forall|f: ActiveFault| #[trigger] to_requeue(outcomes).contains(f) implies exists|i: int|
        0 <= i < outcomes.len() && (#[trigger] outcomes[i]).1 != RevertOutcome::Reverted && outcomes[i].0
            == f by {
        let k = choose|k: int| 0 <= k < to_requeue(outcomes).len() && to_requeue(outcomes)[k] == f;
        outcomes.lemma_filter_pred(g, k);
        assert(kept.contains(kept[k]));
        outcomes.lemma_filter_contains_rev(g, kept[k]);
        let i = choose|i: int| 0 <= i < outcomes.len() && outcomes[i] == kept[k];
        assert(outcomes[i].1 != RevertOutcome::Reverted);
        assert(to_requeue(outcomes)[k] == kept[k].0);
    }
}

} // verus!
