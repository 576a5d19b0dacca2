//! Command-line values: the option types, fault profiles, and the parsers for
//! seeds and durations.

use vstd::prelude::*;
use std::path::PathBuf;
use std::time::Duration;
use crate::text::{
    chars_of, from_str_radix_u64, parse_u64_radix, push_str, trim, trim_bounds, IntErrorKind,
    int_error_text,
};
use crate::types::{duration_from_secs, secs_duration};

verus! {

#[verifier::external_type_specification]
#[verifier::external_body]
pub struct ExPathBuf(PathBuf);

/// Fault profile presets.
#[derive(Debug, Clone, Copy, PartialEq, Eq, Structural)]
pub enum FaultProfile {
    /// Network and pod faults: crash, latency, partition, stress, dns.
    Standard,
    /// Standard plus eviction (tests PodDisruptionBudgets).
    Aggressive,
}

/// Output format for results.
#[derive(Debug, Clone, Copy, PartialEq, Eq, Structural)]
pub enum OutputFormat {
    /// Human-readable terminal output.
    Text,
    /// Machine-readable JSON.
    Json,
    /// JUnit XML.
    Junit,
    /// HTML timeline.
    Html,
}

/// Seed exploration strategy chosen on the command line.
#[derive(Debug, Clone, Copy, PartialEq, Eq, Structural)]
pub enum ExploreStrategyArg {
    Sequential,
    Random,
    Coverage,
}

impl ExploreStrategyArg {
    /// The explorer strategy this choice selects.
    pub fn strategy(self) -> (s: crate::fault::explorer::ExploreStrategy)
        ensures
            s == match self {
                ExploreStrategyArg::Sequential => crate::fault::explorer::ExploreStrategy::Sequential,
                ExploreStrategyArg::Random => crate::fault::explorer::ExploreStrategy::Random,
                ExploreStrategyArg::Coverage => crate::fault::explorer::ExploreStrategy::Coverage,
            },
    {
        match self {
            ExploreStrategyArg::Sequential => crate::fault::explorer::ExploreStrategy::Sequential,
            ExploreStrategyArg::Random => crate::fault::explorer::ExploreStrategy::Random,
            ExploreStrategyArg::Coverage => crate::fault::explorer::ExploreStrategy::Coverage,
        }
    }
}

/// Process-level fault to inject.
#[derive(Debug, Clone, Copy, PartialEq, Eq, Structural)]
pub enum ProcessFaultType {
    /// Reject all `connect()` calls with ECONNREFUSED.
    ConnectError,
    /// Exhaust file descriptors (EMFILE on `socket()`).
    FdExhaustion,
    /// Add latency to `connect()` calls.
    ConnectLatency,
}

/// Config preset for `init`.
#[derive(Debug, Clone, Copy, PartialEq, Eq, Structural)]
pub enum InitPreset {
    /// Basic chaos testing config (the default).
    Basic,
    /// Microservice mesh resilience testing.
    Microservice,
    /// Stateful workload (database, queue) testing.
    Stateful,
    /// CI-optimized quick smoke test.
    Ci,
}

/// Pre-built SLA property bundles.
#[derive(Debug, Clone, Copy, PartialEq, Eq, Structural)]
pub enum PropertyTemplate {
    /// 99% availability, 30s recovery, 500ms p99.
    Basic,
    /// 99.9% availability, 15s recovery, 250ms p99, error budget, no cascade.
    ThreeNines,
    /// 99.99% availability, 5s recovery, 100ms p99.9, strict error budget, no cascade.
    FourNines,
    /// 95% availability, 10s recovery: a fast CI smoke test.
    Ci,
    /// 99.5% availability, 30s recovery, 500ms p99, no cascade, DNS, steady state.
    Microservice,
    /// 99% availability, 60s recovery, error budget, steady state, throughput.
    Stateful,
}

/// Arguments of `diff`.
#[derive(Debug)]
pub struct DiffArgs {
    pub seed_a: String,
    pub seed_b: String,
    pub duration: String,
    pub warmup: String,
    pub faults: Vec<String>,
    pub profile: Option<FaultProfile>,
    pub config: Option<PathBuf>,
    pub output: OutputFormat,
    pub property_template: Option<PropertyTemplate>,
}

/// Arguments of `time-warp`.
#[derive(Debug)]
pub struct TimeWarpArgs {
    pub pod: String,
    pub namespace: String,
    pub offset: String,
    pub speed: String,
    pub revert: bool,
    pub container: Option<String>,
}

/// Arguments of `process-fault`.
#[derive(Debug)]
pub struct ProcessFaultArgs {
    pub pod: String,
    pub namespace: String,
    pub fault: ProcessFaultType,
    pub duration: String,
    pub port: Option<u16>,
    pub errno: i32,
    pub container: Option<String>,
    pub latency: u64,
}

/// Arguments of `init`.
#[derive(Debug)]
pub struct InitArgs {
    pub output: String,
    pub preset: Option<InitPreset>,
}

/// Arguments of `simulate`.
#[derive(Debug)]
pub struct SimulateArgs {
    pub seed: Option<String>,
    pub duration: String,
    pub warmup: String,
    pub faults: Vec<String>,
    pub pods: usize,
    pub time_scale: String,
    pub output: OutputFormat,
    pub profile: Option<FaultProfile>,
    pub config: Option<PathBuf>,
    pub property_template: Option<PropertyTemplate>,
}

/// The text of each string in `v`.
pub open spec fn texts(v: Seq<String>) -> Seq<Seq<char>> {
    v.map_values(|s: String| s@)
}

/// The faults a profile enables.
pub open spec fn profile_faults(p: FaultProfile) -> Seq<Seq<char>> {
    match p {
        FaultProfile::Standard => seq!["crash"@, "latency"@, "partition"@, "stress"@, "dns"@],
        FaultProfile::Aggressive => seq![
            "crash"@,
            "latency"@,
            "partition"@,
            "stress"@,
            "dns"@,
            "eviction"@,
        ],
    }
}

/// The faults to run: those of the profile when one is given, else the
/// listed ones.
pub fn resolve_faults(faults: &[String], profile: Option<&FaultProfile>) -> (r: Vec<String>)
    ensures
        texts(r@) == match profile {
            Some(p) => profile_faults(*p),
            None => texts(faults@),
        },
{
    match profile {
        Some(FaultProfile::Standard) => {
            let r = crate::k8s::cluster::owned_strings(&["crash", "latency", "partition", "stress", "dns"]);
            assert(texts(r@) =~= profile_faults(FaultProfile::Standard));
            r
        },
        Some(FaultProfile::Aggressive) => {
            let r = crate::k8s::cluster::owned_strings(
                &["crash", "latency", "partition", "stress", "dns", "eviction"],
            );
            assert(texts(r@) =~= profile_faults(FaultProfile::Aggressive));
            r
        },
        None => {
            let mut r: Vec<String> = Vec::new();
            let mut i: usize = 0;
            while i < faults.len()
                invariant
                    i <= faults@.len(),
                    texts(r@) == texts(faults@.take(i as int)),
                decreases faults@.len() - i,
            {
                r.push(faults[i].clone());
                assert(texts(faults@.take(i + 1)) =~= texts(faults@.take(i as int)).push(faults@[i as int]@));
                assert(texts(r@) =~= texts(faults@.take(i + 1)));
                i = i + 1;
            }
            assert(faults@.take(faults@.len() as int) =~= faults@);
            r
        },
    }
}

/// Why a seed argument was refused.
#[derive(Debug, Clone, Copy, PartialEq, Eq, Structural)]
pub enum SeedArgError {
    /// The text after `0x` is not a 64-bit hexadecimal number.
    InvalidHex(IntErrorKind),
    /// The text is not a 64-bit decimal number.
    InvalidDecimal(IntErrorKind),
}

impl SeedArgError {
    /// The error's message.
    pub fn message(&self) -> (s: String)
        ensures
            s@ == match *self {
                SeedArgError::InvalidHex(k) => "Invalid hex seed: "@ + int_error_text(k),
                SeedArgError::InvalidDecimal(k) => "Invalid decimal seed: "@ + int_error_text(k),
            },
    {
        let mut s = String::new();
        match self {
            SeedArgError::InvalidHex(k) => {
                push_str(&mut s, "Invalid hex seed: ");
                let m = k.message();
                push_str(&mut s, m.as_str());
            },
            SeedArgError::InvalidDecimal(k) => {
                push_str(&mut s, "Invalid decimal seed: ");
                let m = k.message();
                push_str(&mut s, m.as_str());
            },
        }
        s
    }
}

/// What `parse_seed` gives for a seed argument: hexadecimal after a leading
/// `0x`, decimal otherwise.
pub open spec fn seed_arg_value(s: Seq<char>) -> Result<u64, SeedArgError> {
    if s.len() >= 2 && s[0] == '0' && s[1] == 'x' {
        match from_str_radix_u64(s.skip(2), 16) {
            Ok(v) => Ok(v),
            Err(k) => Err(SeedArgError::InvalidHex(k)),
        }
    } else {
        match from_str_radix_u64(s, 10) {
            Ok(v) => Ok(v),
            Err(k) => Err(SeedArgError::InvalidDecimal(k)),
        }
    }
}

/// Parses a seed argument: `0x` and hexadecimal digits, or decimal digits.
pub fn parse_seed(s: &str) -> (r: Result<u64, SeedArgError>)
    ensures
        r == seed_arg_value(s@),
{
    let cs = chars_of(s);
    let n = cs.len();
    if n >= 2 && cs[0] == '0' && cs[1] == 'x' {
        assert(cs@.subrange(2, n as int) =~= s@.skip(2));
        match parse_u64_radix(cs.as_slice(), 2, n, 16) {
            Ok(v) => Ok(v),
            Err(k) => Err(SeedArgError::InvalidHex(k)),
        }
    } else {
        assert(cs@.subrange(0, n as int) =~= s@);
        match parse_u64_radix(cs.as_slice(), 0, n, 10) {
            Ok(v) => Ok(v),
            Err(k) => Err(SeedArgError::InvalidDecimal(k)),
        }
    }
}

/// Why a duration argument was refused; each carries why its number was.
#[derive(Debug, Clone, Copy, PartialEq, Eq, Structural)]
pub enum DurationArgError {
    /// A bad number before `s`.
    InvalidSeconds(IntErrorKind),
    /// A bad number before `m`.
    InvalidMinutes(IntErrorKind),
    /// A bad number before `h`.
    InvalidHours(IntErrorKind),
    /// A bad number without a unit.
    InvalidDuration(IntErrorKind),
}

impl DurationArgError {
    /// The error's message.
    pub fn message(&self) -> (s: String)
        ensures
            s@ == match *self {
                DurationArgError::InvalidSeconds(k) => "Invalid seconds: "@ + int_error_text(k),
                DurationArgError::InvalidMinutes(k) => "Invalid minutes: "@ + int_error_text(k),
                DurationArgError::InvalidHours(k) => "Invalid hours: "@ + int_error_text(k),
                DurationArgError::InvalidDuration(k) => "Invalid duration: "@ + int_error_text(k),
            },
    {
        let mut s = String::new();
        let k = match self {
            DurationArgError::InvalidSeconds(k) => {
                push_str(&mut s, "Invalid seconds: ");
                k
            },
            DurationArgError::InvalidMinutes(k) => {
                push_str(&mut s, "Invalid minutes: ");
                k
            },
            DurationArgError::InvalidHours(k) => {
                push_str(&mut s, "Invalid hours: ");
                k
            },
            DurationArgError::InvalidDuration(k) => {
                push_str(&mut s, "Invalid duration: ");
                k
            },
        };
        let m = k.message();
        push_str(&mut s, m.as_str());
        s
    }
}

/// The number of seconds a duration argument denotes, before any limit:
/// the trimmed text is a number followed by `s`, `m` or `h`, or a bare
/// number of seconds.
pub open spec fn duration_arg_seconds(s: Seq<char>) -> Result<int, DurationArgError> {
    let t = trim(s);
    if t.len() > 0 && t.last() == 's' {
        match from_str_radix_u64(t.drop_last(), 10) {
            Ok(v) => Ok(v as int),
            Err(k) => Err(DurationArgError::InvalidSeconds(k)),
        }
    } else if t.len() > 0 && t.last() == 'm' {
        match from_str_radix_u64(t.drop_last(), 10) {
            Ok(v) => Ok(v * 60),
            Err(k) => Err(DurationArgError::InvalidMinutes(k)),
        }
    } else if t.len() > 0 && t.last() == 'h' {
        match from_str_radix_u64(t.drop_last(), 10) {
            Ok(v) => Ok(v * 3600),
            Err(k) => Err(DurationArgError::InvalidHours(k)),
        }
    } else {
        match from_str_radix_u64(t, 10) {
            Ok(v) => Ok(v as int),
            Err(k) => Err(DurationArgError::InvalidDuration(k)),
        }
    }
}

/// Whether a duration argument's seconds, if it has any, fit in 64 bits.
pub open spec fn duration_arg_fits(s: Seq<char>) -> bool {
    match duration_arg_seconds(s) {
        Ok(v) => v <= u64::MAX,
        Err(_) => true,
    }
}

/// The number and unit of a duration argument: `(lo, hi, unit seconds,
/// suffix)` where `cs[lo..hi]` is the number.
fn split_duration(cs: &[char]) -> (r: (usize, usize, u64, char))
    ensures
        r.0 <= r.1 <= cs@.len(),
        ({
            let t = trim(cs@);
            let num = cs@.subrange(r.0 as int, r.1 as int);
            if t.len() > 0 && t.last() == 's' {
                num == t.drop_last() && r.2 == 1 && r.3 == 's'
            } else if t.len() > 0 && t.last() == 'm' {
                num == t.drop_last() && r.2 == 60 && r.3 == 'm'
            } else if t.len() > 0 && t.last() == 'h' {
                num == t.drop_last() && r.2 == 3600 && r.3 == 'h'
            } else {
                num == t && r.2 == 1 && r.3 == ' '
            }
        }),
{
    let (lo, hi) = trim_bounds(cs, 0, cs.len());
    assert(cs@.subrange(0, cs@.len() as int) =~= cs@);
    if lo < hi {
        assert(cs@.subrange(lo as int, hi as int).drop_last() =~= cs@.subrange(lo as int, hi - 1));
        let last = cs[hi - 1];
        if last == 's' {
            return (lo, hi - 1, 1, 's');
        } else if last == 'm' {
            return (lo, hi - 1, 60, 'm');
        } else if last == 'h' {
            return (lo, hi - 1, 3600, 'h');
        }
    }
    (lo, hi, 1, ' ')
}

/// Whether a duration argument's seconds fit in 64 bits (always true of one
/// that is refused).
pub fn duration_fits(s: &str) -> (b: bool)
    ensures
        b == duration_arg_fits(s@),
{
    let cs = chars_of(s);
    let (lo, hi, unit, _) = split_duration(cs.as_slice());
    match parse_u64_radix(cs.as_slice(), lo, hi, 10) {
        Ok(v) => v <= u64::MAX / unit,
        Err(_) => true,
    }
}

/// Parses a duration like `30s`, `2m`, `1h` or a bare number of seconds.
pub fn parse_duration(s: &str) -> (r: Result<Duration, DurationArgError>)
    requires
        duration_arg_fits(s@),
    ensures
        match duration_arg_seconds(s@) {
            Ok(v) => r == Ok::<Duration, DurationArgError>(secs_duration(v as u64)),
            Err(e) => r == Err::<Duration, DurationArgError>(e),
        },
{
    let cs = chars_of(s);
    let (lo, hi, unit, suffix) = split_duration(cs.as_slice());
    match parse_u64_radix(cs.as_slice(), lo, hi, 10) {
        Ok(v) => {
            assert(v * unit <= u64::MAX);
            Ok(duration_from_secs(v * unit))
        },
        Err(k) => {
            if suffix == 's' {
                Err(DurationArgError::InvalidSeconds(k))
            } else if suffix == 'm' {
                Err(DurationArgError::InvalidMinutes(k))
            } else if suffix == 'h' {
                Err(DurationArgError::InvalidHours(k))
            } else {
                Err(DurationArgError::InvalidDuration(k))
            }
        },
    }
}


/// Why a duration argument is refused, if it is (its number is not checked
/// against 64 bits once multiplied by its unit).
pub fn duration_arg_error(s: &str) -> (r: Option<DurationArgError>)
    ensures
        r == match duration_arg_seconds(s@) {
            Ok(_) => None::<DurationArgError>,
            Err(e) => Some(e),
        },
{
    let cs = chars_of(s);
    let (lo, hi, _, suffix) = split_duration(cs.as_slice());
    match parse_u64_radix(cs.as_slice(), lo, hi, 10) {
        Ok(_) => None,
        Err(k) => {
            if suffix == 's' {
                Some(DurationArgError::InvalidSeconds(k))
            } else if suffix == 'm' {
                Some(DurationArgError::InvalidMinutes(k))
            } else if suffix == 'h' {
                Some(DurationArgError::InvalidHours(k))
            } else {
                Some(DurationArgError::InvalidDuration(k))
            }
        },
    }
}

} // verus!
