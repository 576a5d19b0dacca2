//! Core identifiers and virtual time.

use vstd::prelude::*;
use std::ops::{Add, AddAssign, Sub, SubAssign};
use std::time::Duration;
use crate::text::{decimal_chars, push_decimal, push_str};

verus! {

/// Represents a simulated node in the system.
#[derive(Debug, Clone, Copy, PartialEq, Eq, Structural, PartialOrd, Ord, Hash)]
pub struct NodeId(pub u64);

/// Represents time in the virtual simulation, in nanoseconds.
#[derive(Debug, Clone, Copy, PartialEq, Eq, Structural, PartialOrd, Ord, Hash, Default)]
pub struct VirtualTime(pub u64);

/// The kinds of faults that can be injected into the simulation.
#[derive(Debug, Clone, PartialEq, Eq, Hash)]
pub enum FaultKind {
    NetworkPartition,
    ProcessCrash,
    DiskFailure,
    ClockSkew,
    PacketLoss,
    PacketDelay,
    Custom(String),
}

/// The state of the overall simulation.
#[derive(Debug, Clone, Copy, PartialEq, Eq, Structural, Hash)]
pub enum SimulationState {
    Initializing,
    Running,
    Paused,
    Completed,
    Failed,
}

/// Nanoseconds in a millisecond.
pub const NANOS_PER_MILLI: u64 = 1_000_000;

/// Nanoseconds in a second.
pub const NANOS_PER_SEC: u64 = 1_000_000_000;

impl VirtualTime {
    /// Creates a VirtualTime from milliseconds.
    pub fn from_millis(millis: u64) -> (t: Self)
        requires
            millis * NANOS_PER_MILLI <= u64::MAX,
        ensures
            t.0 == millis * NANOS_PER_MILLI,
    {
        VirtualTime(millis * NANOS_PER_MILLI)
    }

    /// Creates a VirtualTime from seconds.
    pub fn from_secs(secs: u64) -> (t: Self)
        requires
            secs * NANOS_PER_SEC <= u64::MAX,
        ensures
            t.0 == secs * NANOS_PER_SEC,
    {
        VirtualTime(secs * NANOS_PER_SEC)
    }

    /// Returns the virtual time as whole milliseconds.
    pub fn as_millis(&self) -> (ms: u64)
        ensures
            ms == self.0 / NANOS_PER_MILLI,
    {
        self.0 / NANOS_PER_MILLI
    }

    /// Returns the virtual time as whole seconds.
    pub fn as_secs(&self) -> (s: u64)
        ensures
            s == self.0 / NANOS_PER_SEC,
    {
        self.0 / NANOS_PER_SEC
    }
}

/// `Duration::clone`: `Duration` is `Copy`, so a clone is the same duration.
pub assume_specification[ <Duration as Clone>::clone ](d: &Duration) -> (r: Duration)
    ensures
        r == *d,
;

/// The `Duration` that `Duration::from_millis(ms)` returns.
pub uninterp spec fn millis_duration(ms: u64) -> Duration;

/// The `Duration` that `Duration::from_secs(secs)` returns.
pub uninterp spec fn secs_duration(secs: u64) -> Duration;

/// `Duration::from_secs`: the duration of `secs` seconds. The result is
/// named; it depends on `secs` alone.
#[verifier::external_body]
pub(crate) fn duration_from_secs(secs: u64) -> (d: Duration)
    ensures
        d == secs_duration(secs),
{
    Duration::from_secs(secs)
}

/// `Duration::as_millis`: the whole milliseconds of a duration. What it
/// returns is stated for durations made by `Duration::from_millis`, whose
/// milliseconds it gives back; of other durations nothing is stated.
#[verifier::external_body]
pub(crate) fn duration_as_millis(d: &Duration) -> (ms: u128)
    ensures
        forall|m: u64| *d == millis_duration(m) ==> ms == m as u128,
{
    d.as_millis()
}

/// The `Duration` that `Duration::from_nanos(ns)` returns.
pub uninterp spec fn nanos_duration(ns: u64) -> Duration;

/// `Duration::from_millis`: the duration of `ms` milliseconds. The result is
/// named; it depends on `ms` alone.
#[verifier::external_body]
pub(crate) fn duration_from_millis(ms: u64) -> (d: Duration)
    ensures
        d == millis_duration(ms),
{
    Duration::from_millis(ms)
}

/// `Duration::from_nanos`: the duration of `ns` nanoseconds. The result is
/// named; it depends on `ns` alone.
#[verifier::external_body]
pub(crate) fn duration_from_nanos(ns: u64) -> (d: Duration)
    ensures
        d == nanos_duration(ns),
{
    Duration::from_nanos(ns)
}

impl VirtualTime {
    /// Converts to a `std::time::Duration` of the same number of nanoseconds.
    pub fn as_std_duration(&self) -> (d: Duration)
        ensures
            d == nanos_duration(self.0),
    {
        duration_from_nanos(self.0)
    }

    /// Renders the time as its nanosecond count followed by `ns`.
    pub fn display_string(&self) -> (s: String)
        ensures
            s@ == decimal_chars(self.0 as nat) + seq!['n', 's'],
    {
        let mut s = String::new();
        push_decimal(&mut s, self.0);
        push_str(&mut s, "ns");
        proof {
            reveal_strlit("ns");
            assert(s@ =~= decimal_chars(self.0 as nat) + seq!['n', 's']);
        }
        s
    }
}

impl Add for VirtualTime {
    type Output = Self;

    fn add(self, rhs: Self) -> (r: Self) {
        VirtualTime(self.0 + rhs.0)
    }
}

impl vstd::std_specs::ops::AddSpecImpl for VirtualTime {
    open spec fn obeys_add_spec() -> bool {
        true
    }

    open spec fn add_req(self, rhs: Self) -> bool {
        self.0 + rhs.0 <= u64::MAX
    }

    open spec fn add_spec(self, rhs: Self) -> Self {
        VirtualTime((self.0 + rhs.0) as u64)
    }
}

/// In-place addition. Compound assignment carries no precondition, so the sum
/// wraps around on overflow, as the unchecked `+=` does in release builds.
impl AddAssign for VirtualTime {
    fn add_assign(&mut self, rhs: Self)
        ensures
            final(self).0 == (old(self).0 + rhs.0) % 0x1_0000_0000_0000_0000,
    {
        self.0 = self.0.wrapping_add(rhs.0);
    }
}

impl Sub for VirtualTime {
    type Output = Self;

    fn sub(self, rhs: Self) -> (r: Self) {
        VirtualTime(self.0 - rhs.0)
    }
}

impl vstd::std_specs::ops::SubSpecImpl for VirtualTime {
    open spec fn obeys_sub_spec() -> bool {
        true
    }

    open spec fn sub_req(self, rhs: Self) -> bool {
        rhs.0 <= self.0
    }

    open spec fn sub_spec(self, rhs: Self) -> Self {
        VirtualTime((self.0 - rhs.0) as u64)
    }
}

/// In-place subtraction; like `AddAssign`, it wraps around on underflow.
impl SubAssign for VirtualTime {
    fn sub_assign(&mut self, rhs: Self)
        ensures
            final(self).0 == (old(self).0 - rhs.0) % 0x1_0000_0000_0000_0000,
    {
        self.0 = self.0.wrapping_sub(rhs.0);
    }
}

} // verus!
