//! Picking the next fault for Kubernetes targets from a seeded generator.

use vstd::prelude::*;
use rand::rngs::StdRng;
use crate::rng::{std_rng_from_seed, std_rng_index_below};

verus! {

/// Types of faults that can be injected.
#[derive(Debug, Clone, Copy, PartialEq, Eq, Structural, Hash)]
pub enum FaultType {
    /// Crash the target pod.
    Crash,
    /// Add latency to the target pod.
    Latency { delay_ms: u32, jitter_ms: u32 },
    /// Partition the target pod from the network.
    Partition,
    /// Put the target pod under CPU and memory pressure.
    Stress { cpu_workers: u32, mem_bytes: u64 },
    /// Make DNS resolution fail in the target pod.
    Dns,
    /// Evict the target pod.
    Eviction,
}

/// A scheduled fault to be injected.
#[derive(Debug, Clone)]
pub struct ScheduledFault {
    /// The type of fault to inject.
    pub fault_type: FaultType,
    /// The target pod name.
    pub target_pod: String,
    /// The namespace of the target pod.
    pub namespace: String,
}

/// Picks faults and targets with a generator seeded from `seed`.
pub struct FaultScheduler {
    pub seed: u64,
    pub rng: StdRng,
    pub enabled_faults: Vec<FaultType>,
    pub target_pods: Vec<String>,
    pub namespace: String,
}

impl FaultScheduler {
    /// Creates a scheduler whose generator is seeded from `seed`.
    pub fn new(seed: u64, enabled_faults: Vec<FaultType>, target_pods: Vec<String>, namespace: String) -> (s: Self)
        ensures
            s.seed == seed,
            s.enabled_faults == enabled_faults,
            s.target_pods == target_pods,
            s.namespace == namespace,
    {
        FaultScheduler { seed, rng: std_rng_from_seed(seed), enabled_faults, target_pods, namespace }
    }

    /// The next fault: `None` when no fault type or no pod is configured;
    /// otherwise one enabled fault type, drawn first, and one target pod,
    /// drawn second, in the scheduler's namespace.
    pub fn next_fault(&mut self) -> (r: Option<ScheduledFault>)
        ensures
            final(self).seed == old(self).seed,
            final(self).enabled_faults == old(self).enabled_faults,
            final(self).target_pods == old(self).target_pods,
            final(self).namespace == old(self).namespace,
            r is None <==> (old(self).enabled_faults@.len() == 0 || old(self).target_pods@.len()
                == 0),
            r matches Some(f) ==> {
                &&& exists|i: int|
                    0 <= i < old(self).enabled_faults@.len() && f.fault_type == #[trigger] old(
                        self,
                    ).enabled_faults@[i]
                &&& exists|j: int|
                    0 <= j < old(self).target_pods@.len() && f.target_pod@ == (#[trigger] old(
                        self,
                    ).target_pods@[j])@
                &&& f.namespace@ == old(self).namespace@
            },
    {
        if self.enabled_faults.len() == 0 || self.target_pods.len() == 0 {
            return None;
        }
        let fault_idx = std_rng_index_below(&mut self.rng, self.enabled_faults.len());
        let pod_idx = std_rng_index_below(&mut self.rng, self.target_pods.len());
        let fault_type = self.enabled_faults[fault_idx];
        let target_pod = self.target_pods[pod_idx].clone();
        let namespace = self.namespace.clone();
        assert(fault_type == self.enabled_faults@[fault_idx as int]);
        assert(target_pod@ == self.target_pods@[pod_idx as int]@);
        Some(ScheduledFault { fault_type, target_pod, namespace })
    }
}

} // verus!
