//! The syscalls the tracer hands to the handler, and the handler's answers.

use vstd::prelude::*;
use std::time::Duration;

verus! {

/// A system call that has been intercepted by the tracing engine.
#[derive(Debug, Clone, PartialEq, Eq)]
pub enum InterceptedSyscall {
    /// `clock_gettime`
    ClockGettime { clock_id: i32 },
    /// `gettimeofday`
    GetTimeOfDay,
    /// `nanosleep`
    Nanosleep { requested_ns: u64 },
    /// `getrandom`
    GetRandom { len: usize },
    /// `socket`
    Socket { domain: i32, sock_type: i32, protocol: i32 },
    /// `connect`, with the raw `sockaddr` bytes
    Connect { fd: i32, addr: Vec<u8> },
    /// `send`
    Send { fd: i32, len: usize },
    /// `recv`
    Recv { fd: i32, len: usize },
    /// `accept`
    Accept { fd: i32 },
    /// `bind`, with the raw `sockaddr` bytes
    Bind { fd: i32, addr: Vec<u8> },
    /// Any other syscall
    Unknown { syscall_nr: i64 },
}

/// What the traced process gets back for an intercepted syscall.
#[derive(Debug, Clone, PartialEq, Eq)]
pub enum SyscallResult {
    /// Let the syscall run normally.
    Allow,
    /// Replace the return value.
    Replace(i64),
    /// Fail the syscall with this errno.
    Block(i32),
    /// Sleep for the duration, then let the syscall run.
    Delay(Duration),
    /// Redirect the syscall (to another descriptor or path).
    Redirect,
}

} // verus!
