//! Seccomp-BPF filtering, so that only the syscalls of interest trap to the
//! tracer. The filter carries no state yet.

use vstd::prelude::*;

verus! {

/// Manages a seccomp-BPF filter that traps targeted syscalls.
pub struct SeccompFilter {}

impl SeccompFilter {
    /// Creates a filter.
    pub fn new() -> Self {
        SeccompFilter {}
    }
}

} // verus!
