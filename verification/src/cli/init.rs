//! The starter configurations written by `init`, one per preset.

use vstd::prelude::*;
use crate::cli::args::InitPreset;

verus! {

/// The basic preset: probes, availability, recovery and latency.
pub const BASIC_PRESET_TOML: &'static str = r#"# heisensim configuration (basic preset)
# Docs: https://heisensim.dev

# Simulation duration
duration = "30s"

# Warmup period before fault injection begins
warmup = "5s"

# Kubernetes namespace to target
namespace = "default"

# Fault types to inject
# Available: network-delay, network-loss, network-partition, stress, dns
faults = ["network-delay", "network-loss"]
# Or use --profile standard (default) or --profile aggressive (adds eviction)

# HTTP probes to monitor during chaos testing
[[probes]]
name = "my-service"
url = "http://my-service.default.svc:8080/health"
interval = "1s"

# SLA properties to verify
# Exit code 1 if any property fails — CI-native

[[properties]]
name = "fast-recovery"
type = "recovery_time"
max_seconds = 30

[[properties]]
name = "high-availability"
type = "availability"
min_percent = 99.0

[[properties]]
name = "low-latency"
type = "latency_p99"
max_ms = 500
"#;

/// The microservice preset: a mesh with an API gateway and a backend.
pub const MICROSERVICE_PRESET_TOML: &'static str = r#"# heisensim configuration (microservice preset)
# Tests resilience of a microservice mesh with API gateway and backend

duration = "5m"
warmup = "15s"
namespace = "default"
faults = ["crash", "latency", "partition", "dns"]

[[probes]]
name = "api-gateway"
url = "http://api-gateway.default.svc:8080/health"
interval = "1s"

[[probes]]
name = "backend-service"
url = "http://backend-service.default.svc:8080/ready"
interval = "2s"

[[properties]]
name = "high-availability"
type = "availability"
min_percent = 99.5

[[properties]]
name = "fast-recovery"
type = "recovery_time"
max_seconds = 30

[[properties]]
name = "low-latency"
type = "latency_p99"
max_ms = 500

[[properties]]
name = "prevent-cascading-failure"
type = "no_cascade"

[[properties]]
name = "dns-resilience"
type = "dns-resolution"
max_recovery_seconds = 10
"#;

/// The stateful preset: databases and message queues.
pub const STATEFUL_PRESET_TOML: &'static str = r#"# heisensim configuration (stateful preset)
# Tests resilience of stateful workloads like databases or message queues

duration = "3m"
warmup = "30s"
namespace = "default"
faults = ["crash", "eviction", "stress"]

[[probes]]
name = "database-primary"
url = "http://database-primary.default.svc:9090/healthz"
interval = "5s"

[[properties]]
name = "extreme-availability"
type = "availability"
min_percent = 99.9

[[properties]]
name = "recovery-time"
type = "recovery_time"
max_seconds = 60

[[properties]]
name = "error-budget"
type = "error_budget"
max_consecutive = 3

[[properties]]
name = "returns-to-normal"
type = "steady-state"
max_recovery_seconds = 60
baseline_seconds = 30
"#;

/// The CI preset: a short run for fast feedback.
pub const CI_PRESET_TOML: &'static str = r#"# heisensim configuration (CI preset)
# Optimized for fast CI feedback

duration = "1m"
warmup = "5s"
namespace = "default"
faults = ["crash", "latency", "partition"]

[[probes]]
name = "my-service"
url = "http://my-service.default.svc:8080/health"
interval = "1s"

[[properties]]
name = "high-availability"
type = "availability"
min_percent = 99.0

[[properties]]
name = "fast-recovery"
type = "recovery_time"
max_seconds = 15
"#;

/// A preset's configuration text, its name and the duration it sets.
pub open spec fn preset_parts(p: InitPreset) -> (Seq<char>, Seq<char>, Seq<char>) {
    match p {
        InitPreset::Basic => (BASIC_PRESET_TOML@, "basic"@, "30s"@),
        InitPreset::Microservice => (MICROSERVICE_PRESET_TOML@, "microservice"@, "5m"@),
        InitPreset::Stateful => (STATEFUL_PRESET_TOML@, "stateful"@, "3m"@),
        InitPreset::Ci => (CI_PRESET_TOML@, "ci"@, "1m"@),
    }
}

/// The configuration text, name and duration of a preset; the basic one
/// when none is chosen.
pub fn init_preset(preset: Option<InitPreset>) -> (r: (&'static str, &'static str, &'static str))
    ensures
        (r.0@, r.1@, r.2@) == preset_parts(
            match preset {
                Some(p) => p,
                None => InitPreset::Basic,
            },
        ),
{
    match preset {
        None | Some(InitPreset::Basic) => (BASIC_PRESET_TOML, "basic", "30s"),
        Some(InitPreset::Microservice) => (MICROSERVICE_PRESET_TOML, "microservice", "5m"),
        Some(InitPreset::Stateful) => (STATEFUL_PRESET_TOML, "stateful", "3m"),
        Some(InitPreset::Ci) => (CI_PRESET_TOML, "ci", "1m"),
    }
}

} // verus!
