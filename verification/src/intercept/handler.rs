//! The syscall handler: what a traced process gets back for each intercepted
//! syscall, given the active time control and network fault.

use vstd::prelude::*;
use crate::intercept::control::TimeControl;
use crate::intercept::syscall::{InterceptedSyscall, SyscallResult};
use crate::types::{duration_from_millis, millis_duration};

verus! {

/// The 16-bit value of two bytes read in the byte order of the machine that
/// runs (vstd's `endianness()`): the first byte low on a little-endian
/// machine, high on a big-endian one.
pub open spec fn native_u16(b0: u8, b1: u8) -> int {
    match vstd::endian::endianness() {
        vstd::endian::Endian::Little => b0 + 256 * b1,
        vstd::endian::Endian::Big => b1 + 256 * b0,
    }
}

/// `u16::from_ne_bytes([b0, b1])`: the two bytes read in the machine's own
/// byte order.
#[verifier::external_body]
fn u16_from_ne_bytes(b0: u8, b1: u8) -> (r: u16)
    ensures
        r == native_u16(b0, b1),
{
    u16::from_ne_bytes([b0, b1])
}

/// The 16-bit value of two bytes, the first one high (network byte order).
pub open spec fn be_u16(hi: u8, lo: u8) -> u16 {
    (hi * 256 + lo) as u16
}

/// Whether an address family carries an IP port: `AF_INET` (2) or `AF_INET6` (10).
pub open spec fn is_ip_family(family: int) -> bool {
    family == 2 || family == 10
}

/// What `extract_port` returns for the `sockaddr` bytes `addr`: nothing
/// when fewer than four bytes are given; otherwise, when the family in bytes
/// 0 and 1, read in the machine's byte order, is an IP family, the
/// big-endian port in bytes 2 and 3, and nothing when it is not.
pub open spec fn port_reading(addr: Seq<u8>, r: Option<u16>) -> bool {
    if addr.len() < 4 {
        r is None
    } else if is_ip_family(native_u16(addr[0], addr[1])) {
        r == Some(be_u16(addr[2], addr[3]))
    } else {
        r is None
    }
}

/// Extracts the destination port from raw `sockaddr` bytes: `AF_INET` (2) and
/// `AF_INET6` (10) carry it big-endian in bytes 2 and 3; other families
/// (`AF_UNIX`, ...) and buffers shorter than four bytes have none.
pub fn extract_port(addr: &[u8]) -> (r: Option<u16>)
    ensures
        port_reading(addr@, r),
{
    if addr.len() < 4 {
        return None;
    }
    let family = u16_from_ne_bytes(addr[0], addr[1]);
    if family == 2 || family == 10 {
        Some((addr[2] as u16) * 256 + addr[3] as u16)
    } else {
        None
    }
}

/// Configuration for process-level network fault injection.
#[derive(Debug, Clone, Default)]
pub struct NetworkFaultConfig {
    /// If set, `connect()` calls fail with this errno (e.g. `ECONNREFUSED` = 111).
    pub connect_error: Option<i32>,
    /// If set, `socket()` calls fail with this errno (e.g. `EMFILE` = 24).
    pub socket_error: Option<i32>,
    /// If set, `connect()` calls are delayed by this many milliseconds, then allowed.
    pub connect_latency_ms: Option<u64>,
    /// If set, faults apply only to connections to this port.
    pub target_port: Option<u16>,
}

/// The answer to a `connect()` under a network fault, given the port read
/// from its address: with a port filter, a connection to another port (or to
/// no port) is allowed; otherwise an errno wins over a delay.
pub open spec fn connect_decision(config: NetworkFaultConfig, port: Option<u16>) -> SyscallResult {
    if config.target_port is Some && port != Some(config.target_port->0) {
        SyscallResult::Allow
    } else if config.connect_error is Some {
        SyscallResult::Block(config.connect_error->0)
    } else if config.connect_latency_ms is Some {
        SyscallResult::Delay(millis_duration(config.connect_latency_ms->0))
    } else {
        SyscallResult::Allow
    }
}

/// The answer to an intercepted syscall other than `connect()`: a `socket()`
/// under a network fault with a socket errno is blocked, all else is allowed.
pub open spec fn plain_decision(network_fault: Option<NetworkFaultConfig>, syscall: InterceptedSyscall) -> SyscallResult {
    match syscall {
        InterceptedSyscall::Socket { .. } => match network_fault {
            Some(c) => match c.socket_error {
                Some(errno) => SyscallResult::Block(errno),
                None => SyscallResult::Allow,
            },
            None => SyscallResult::Allow,
        },
        _ => SyscallResult::Allow,
    }
}

/// Holds the active interceptions and decides how each intercepted syscall
/// is answered.
pub struct SyscallHandler {
    /// Time manipulation control; when set, time syscalls are intercepted.
    pub time_control: Option<TimeControl>,
    /// Network fault injection config.
    pub network_fault: Option<NetworkFaultConfig>,
}

impl SyscallHandler {
    /// A handler with no active interceptions.
    pub fn new() -> (h: Self)
        ensures
            h.time_control is None,
            h.network_fault is None,
    {
        SyscallHandler { time_control: None, network_fault: None }
    }

    /// A handler with time control enabled.
    pub fn with_time_control(control: TimeControl) -> (h: Self)
        ensures
            h.time_control == Some(control),
            h.network_fault is None,
    {
        SyscallHandler { time_control: Some(control), network_fault: None }
    }

    /// A handler with network fault injection enabled.
    pub fn with_network_fault(config: NetworkFaultConfig) -> (h: Self)
        ensures
            h.time_control is None,
            h.network_fault == Some(config),
    {
        SyscallHandler { time_control: None, network_fault: Some(config) }
    }

    /// Sets or replaces the time control.
    pub fn set_time_control(&mut self, control: TimeControl)
        ensures
            final(self).time_control == Some(control),
            final(self).network_fault == old(self).network_fault,
    {
        self.time_control = Some(control);
    }

    /// Clears the time control (passthrough).
    pub fn clear_time_control(&mut self)
        ensures
            final(self).time_control is None,
            final(self).network_fault == old(self).network_fault,
    {
        self.time_control = None;
    }

    /// Sets or replaces the network fault config.
    pub fn set_network_fault(&mut self, config: NetworkFaultConfig)
        ensures
            final(self).network_fault == Some(config),
            final(self).time_control == old(self).time_control,
    {
        self.network_fault = Some(config);
    }

    /// Clears the network fault config.
    pub fn clear_network_fault(&mut self)
        ensures
            final(self).network_fault is None,
            final(self).time_control == old(self).time_control,
    {
        self.network_fault = None;
    }

    /// Decides how an intercepted syscall is answered. Time syscalls are
    /// handled by the vDSO payload and pass through here; `socket()` and
    /// `connect()` fail or wait as the network fault says; all else is allowed.
    pub fn handle(&mut self, syscall: InterceptedSyscall) -> (r: SyscallResult)
        ensures
            final(self).time_control == old(self).time_control,
            final(self).network_fault == old(self).network_fault,
            match syscall {
                InterceptedSyscall::Connect { addr, .. } => match old(self).network_fault {
                    Some(c) => exists|p: Option<u16>|
                        #![trigger connect_decision(c, p)]
                        port_reading(addr@, p) && r == connect_decision(c, p),
                    None => r == SyscallResult::Allow,
                },
                _ => r == plain_decision(old(self).network_fault, syscall),
            },
    {
        match syscall {
            InterceptedSyscall::Socket { .. } => {
                if let Some(config) = &self.network_fault {
                    if let Some(errno) = config.socket_error {
                        return SyscallResult::Block(errno);
                    }
                }
                SyscallResult::Allow
            },
            InterceptedSyscall::Connect { addr, .. } => {
                if let Some(config) = &self.network_fault {
                    let port = extract_port(addr.as_slice());
                    let ghost c = *config;
                    if let Some(target) = config.target_port {
                        let matches = match port {
                            Some(p) => p == target,
                            None => false,
                        };
                        if !matches {
                            assert(connect_decision(c, port) == SyscallResult::Allow);
                            return SyscallResult::Allow;
                        }
                    }
                    if let Some(errno) = config.connect_error {
                        assert(connect_decision(c, port) == SyscallResult::Block(errno));
                        return SyscallResult::Block(errno);
                    }
                    if let Some(ms) = config.connect_latency_ms {
                        let d = duration_from_millis(ms);
                        assert(connect_decision(c, port) == SyscallResult::Delay(d));
                        return SyscallResult::Delay(d);
                    }
                    assert(connect_decision(c, port) == SyscallResult::Allow);
                }
                SyscallResult::Allow
            },
            _ => SyscallResult::Allow,
        }
    }
}

/// Law: under a port filter, a connection to another port (or to no IP port)
/// is allowed whatever fault is configured; otherwise a configured errno
/// wins over a configured delay.
pub proof fn connect_fault_precedence(config: NetworkFaultConfig, port: Option<u16>)
    ensures
        config.target_port is Some && port != Some(config.target_port->0) ==> connect_decision(config, port) == SyscallResult::Allow,
        (config.target_port is None || port == Some(config.target_port->0)) && config.connect_error is Some
            ==> connect_decision(config, port) == SyscallResult::Block(config.connect_error->0),
        (config.target_port is None || port == Some(config.target_port->0)) && config.connect_error is None
            && config.connect_latency_ms is Some ==> connect_decision(config, port) == SyscallResult::Delay(
            millis_duration(config.connect_latency_ms->0),
        ),
{
}

} // verus!
