//! Health probe configurations and results, and what a probe's outcome
//! means: the result of an HTTP answer or a TCP connection attempt, and the
//! timeline event a result becomes. Running the probes is left to the
//! caller.

use vstd::prelude::*;
use std::collections::HashMap;
use std::time::Duration;
use crate::text::{decimal_chars, push_decimal, push_str};
use crate::types::{duration_as_millis, duration_from_millis, millis_duration};

verus! {

/// HTTP method for HTTP probes.
#[derive(Debug, Clone, Copy, PartialEq, Eq, Structural)]
pub enum HttpMethod {
    Get,
    Post,
    Put,
}

/// Configuration for an HTTP health probe.
#[derive(Debug, Clone)]
pub struct HttpProbeConfig {
    pub name: String,
    pub url: String,
    pub method: HttpMethod,
    pub expected_status: u16,
    pub timeout_ms: u64,
    pub interval_ms: u64,
    pub headers: Option<HashMap<String, String>>,
}

/// Configuration for a TCP health probe.
#[derive(Debug, Clone)]
pub struct TcpProbeConfig {
    pub name: String,
    pub host: String,
    pub port: u16,
    pub timeout_ms: u64,
    pub interval_ms: u64,
}

/// Configuration for a gRPC health probe.
#[derive(Debug, Clone)]
pub struct GrpcProbeConfig {
    pub name: String,
    pub address: String,
    pub service: Option<String>,
    pub timeout_ms: u64,
    pub interval_ms: u64,
}

/// Configuration for an exec health probe.
#[derive(Debug, Clone)]
pub struct ExecProbeConfig {
    pub name: String,
    pub command: Vec<String>,
    pub timeout_ms: u64,
    pub interval_ms: u64,
}

/// Configuration for a health probe.
#[derive(Debug, Clone)]
pub enum ProbeConfig {
    Http(HttpProbeConfig),
    Tcp(TcpProbeConfig),
    Grpc(GrpcProbeConfig),
    Exec(ExecProbeConfig),
}

impl ProbeConfig {
    /// The probe's name, whatever its kind.
    pub open spec fn spec_name(&self) -> Seq<char> {
        match self {
            ProbeConfig::Http(c) => c.name@,
            ProbeConfig::Tcp(c) => c.name@,
            ProbeConfig::Grpc(c) => c.name@,
            ProbeConfig::Exec(c) => c.name@,
        }
    }

    /// The probe's interval in milliseconds, whatever its kind.
    pub open spec fn interval_ms(&self) -> u64 {
        match self {
            ProbeConfig::Http(c) => c.interval_ms,
            ProbeConfig::Tcp(c) => c.interval_ms,
            ProbeConfig::Grpc(c) => c.interval_ms,
            ProbeConfig::Exec(c) => c.interval_ms,
        }
    }

    /// The name of the probe.
    pub fn name(&self) -> (n: &str)
        ensures
            n@ == self.spec_name(),
    {
        match self {
            ProbeConfig::Http(c) => c.name.as_str(),
            ProbeConfig::Tcp(c) => c.name.as_str(),
            ProbeConfig::Grpc(c) => c.name.as_str(),
            ProbeConfig::Exec(c) => c.name.as_str(),
        }
    }

    /// How often the probe runs.
    pub fn interval(&self) -> (d: Duration)
        ensures
            d == millis_duration(self.interval_ms()),
    {
        let ms = match self {
            ProbeConfig::Http(c) => c.interval_ms,
            ProbeConfig::Tcp(c) => c.interval_ms,
            ProbeConfig::Grpc(c) => c.interval_ms,
            ProbeConfig::Exec(c) => c.interval_ms,
        };
        duration_from_millis(ms)
    }
}

/// The result of running a health probe.
#[derive(Debug, Clone)]
pub struct ProbeResult {
    /// Whether the probe succeeded.
    pub success: bool,
    /// How long the probe took.
    pub latency: Duration,
    /// The HTTP status code, if any.
    pub status_code: Option<u16>,
    /// The error met, if any.
    pub error: Option<String>,
}

/// The result of an HTTP probe answered with `status` after `latency`: a
/// success exactly when the status is the expected one.
pub fn http_result(status: u16, expected_status: u16, latency: Duration) -> (r: ProbeResult)
    ensures
        r.success == (status == expected_status),
        r.latency == latency,
        r.status_code == Some(status),
        r.success ==> r.error is None,
        !r.success ==> (r.error matches Some(e) && e@ == "Unexpected status: "@ + decimal_chars(status as nat)),
{
    let success = status == expected_status;
    let error = if success {
        None
    } else {
        let mut e = String::new();
        push_str(&mut e, "Unexpected status: ");
        push_decimal(&mut e, status as u64);
        Some(e)
    };
    ProbeResult { success, latency, status_code: Some(status), error }
}

/// How a TCP connection attempt ended.
#[derive(Debug, Clone)]
pub enum ConnectOutcome {
    Connected,
    /// The attempt failed with this error.
    Failed(String),
    /// No connection within the timeout.
    TimedOut,
}

/// The result of a TCP probe whose connection attempt ended as `outcome`
/// after `latency`.
pub fn tcp_result(outcome: ConnectOutcome, latency: Duration) -> (r: ProbeResult)
    ensures
        r.success == (outcome is Connected),
        r.latency == latency,
        r.status_code is None,
        match outcome {
            ConnectOutcome::Connected => r.error is None,
            ConnectOutcome::Failed(e) => r.error matches Some(m) && m@ == "Connection failed: "@ + e@,
            ConnectOutcome::TimedOut => r.error matches Some(m) && m@ == "Connection timed out"@,
        },
{
    match outcome {
        ConnectOutcome::Connected => ProbeResult { success: true, latency, status_code: None, error: None },
        ConnectOutcome::Failed(e) => {
            let mut m = String::new();
            push_str(&mut m, "Connection failed: ");
            push_str(&mut m, e.as_str());
            ProbeResult { success: false, latency, status_code: None, error: Some(m) }
        },
        ConnectOutcome::TimedOut => {
            let mut m = String::new();
            push_str(&mut m, "Connection timed out");
            ProbeResult { success: false, latency, status_code: None, error: Some(m) }
        },
    }
}

/// Whether `needle` occurs in `hay`.
pub open spec fn has_infix(hay: Seq<char>, needle: Seq<char>) -> bool {
    exists|i: int| 0 <= i <= hay.len() - needle.len() && #[trigger] hay.subrange(i, i + needle.len()) == needle
}

/// Whether `needle` occurs in `hay` (`str::contains`).
pub fn contains_text(hay: &str, needle: &str) -> (b: bool)
    ensures
        b == has_infix(hay@, needle@),
{
    let h = crate::text::chars_of(hay);
    let n = crate::text::chars_of(needle);
    let hl: usize = h.len();
    if n.len() > hl {
        return false;
    }
    let mut i: usize = 0;
    while i <= h.len() - n.len()
        invariant
            h@ == hay@,
            n@ == needle@,
            n@.len() <= h@.len(),
            i <= h@.len() - n@.len() + 1,
            h@.len() <= usize::MAX,
            forall|k: int| 0 <= k < i ==> #[trigger] h@.subrange(k, k + n@.len()) != n@,
        decreases h@.len() - i,
    {
        let mut j: usize = 0;
        let mut same = true;
        while j < n.len()
            invariant
                h@ == hay@,
                n@ == needle@,
                i + n@.len() <= h@.len(),
                j <= n@.len(),
                h@.len() <= usize::MAX,
            same == forall|k: int| 0 <= k < j ==> h@[i + k] == n@[k],
            decreases n@.len() - j,
        {
            if h[i + j] != n[j] {
                same = false;
            }
            j = j + 1;
        }
        if same {
            assert(h@.subrange(i as int, i + n@.len()) =~= n@);
            return true;
        }
        assert(h@.subrange(i as int, i + n@.len()) != n@) by {
            let k = choose|k: int| 0 <= k < n@.len() && h@[i + k] != n@[k];
            assert(h@.subrange(i as int, i + n@.len())[k] == h@[i + k]);
        }
        i = i + 1;
    }
    false
}

/// What a probe's result is recorded as in the timeline.
#[derive(Debug, Clone, PartialEq, Eq)]
pub enum ProbeEvent {
    Success { latency_ms: u64, status_code: Option<u16> },
    Timeout { timeout_ms: u64 },
    Failed { error: String, latency_ms: Option<u64> },
}

/// The text of a result's error (empty when it has none).
pub open spec fn error_text(r: ProbeResult) -> Seq<char> {
    match r.error {
        Some(e) => e@,
        None => Seq::empty(),
    }
}

/// The event a probe's result becomes: a success; otherwise a timeout when
/// the error mentions `timed out` or `timeout`; otherwise a failure with the
/// error's text. Each carries the latency in whole milliseconds
/// (`latency_ms`, cut to 64 bits).
pub fn probe_event(result: &ProbeResult) -> (e: ProbeEvent)
    ensures
        result.success ==> (e matches ProbeEvent::Success { latency_ms, status_code } && status_code == result.status_code),
        !result.success && (has_infix(error_text(*result), "timed out"@) || has_infix(error_text(*result), "timeout"@))
            ==> e is Timeout,
        !result.success && !(has_infix(error_text(*result), "timed out"@) || has_infix(error_text(*result), "timeout"@))
            ==> (e matches ProbeEvent::Failed { error, latency_ms } && error@ == error_text(*result) && latency_ms is Some),
        forall|m: u64| result.latency == millis_duration(m) ==> match e {
            ProbeEvent::Success { latency_ms, .. } => latency_ms == m,
            ProbeEvent::Timeout { timeout_ms } => timeout_ms == m,
            ProbeEvent::Failed { latency_ms, .. } => latency_ms == Some(m),
        },
{
    let ms = #[verifier::truncate] (duration_as_millis(&result.latency) as u64);
    if result.success {
        return ProbeEvent::Success { latency_ms: ms, status_code: result.status_code };
    }
    let text: &str = match &result.error {
        Some(e) => e.as_str(),
        None => "",
    };
    proof {
        reveal_strlit("");
    }
    assert(text@ == error_text(*result));
    if contains_text(text, "timed out") || contains_text(text, "timeout") {
        ProbeEvent::Timeout { timeout_ms: ms }
    } else {
        ProbeEvent::Failed { error: text.to_string(), latency_ms: Some(ms) }
    }
}

} // verus!
