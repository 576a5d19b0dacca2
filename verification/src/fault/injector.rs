//! The fault injection engine. It holds no state yet.

use vstd::prelude::*;

verus! {

/// Injects faults into a running simulation.
pub struct FaultInjector {}

impl FaultInjector {
    /// Creates a fault injector.
    pub fn new() -> Self {
        FaultInjector {}
    }
}

impl Default for FaultInjector {
    fn default() -> Self {
        FaultInjector::new()
    }
}

} // verus!
