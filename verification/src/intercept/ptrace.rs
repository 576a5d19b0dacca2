//! The decisions of the ptrace tracer: which syscall a register set holds,
//! and how the traced threads change with each wait status. The ptrace and
//! waitpid calls themselves are left to the caller.

use vstd::prelude::*;
use crate::intercept::syscall::InterceptedSyscall;
use crate::intercept::trampoline::TargetArch;

verus! {

/// The syscall numbers the tracer tells apart, for one architecture.
#[derive(Debug, Clone, Copy, PartialEq, Eq, Structural)]
pub struct SyscallNumbers {
    pub clock_gettime: i64,
    pub gettimeofday: i64,
    pub nanosleep: i64,
    pub getrandom: i64,
    pub socket: i64,
    pub connect: i64,
    pub accept: i64,
    pub sendto: i64,
    pub recvfrom: i64,
    pub bind: i64,
}

/// The Linux syscall numbers of x86_64 and AArch64.
pub open spec fn numbers_of(arch: TargetArch) -> SyscallNumbers {
    if arch == TargetArch::Aarch64 {
        SyscallNumbers {
            clock_gettime: 113,
            gettimeofday: 169,
            nanosleep: 101,
            getrandom: 278,
            socket: 198,
            connect: 203,
            accept: 202,
            sendto: 206,
            recvfrom: 207,
            bind: 200,
        }
    } else {
        SyscallNumbers {
            clock_gettime: 228,
            gettimeofday: 96,
            nanosleep: 35,
            getrandom: 318,
            socket: 41,
            connect: 42,
            accept: 43,
            sendto: 44,
            recvfrom: 45,
            bind: 49,
        }
    }
}

/// The syscall numbers of `arch` (x86_64 or AArch64).
pub fn syscall_numbers(arch: TargetArch) -> (n: SyscallNumbers)
    requires
        arch != TargetArch::Other,
    ensures
        n == numbers_of(arch),
{
    match arch {
        TargetArch::Aarch64 => SyscallNumbers {
            clock_gettime: 113,
            gettimeofday: 169,
            nanosleep: 101,
            getrandom: 278,
            socket: 198,
            connect: 203,
            accept: 202,
            sendto: 206,
            recvfrom: 207,
            bind: 200,
        },
        _ => SyscallNumbers {
            clock_gettime: 228,
            gettimeofday: 96,
            nanosleep: 35,
            getrandom: 318,
            socket: 41,
            connect: 42,
            accept: 43,
            sendto: 44,
            recvfrom: 45,
            bind: 49,
        },
    }
}

/// The most address bytes read for `connect` and `bind`.
pub const MAX_SOCKADDR_LEN: usize = 128;

/// A syscall decoded from registers: complete, or waiting for the bytes of
/// its address to be read from the traced process.
#[derive(Debug, Clone, PartialEq, Eq)]
pub enum DecodedSyscall {
    Ready(InterceptedSyscall),
    /// `connect` (or `bind` when `is_connect` is false) on `fd`, whose address
    /// is `addr_len` bytes at `addr_ptr`.
    NeedsAddress { is_connect: bool, fd: i32, addr_ptr: u64, addr_len: usize },
}

/// What the registers of a syscall stop denote.
pub open spec fn decoded(arch: TargetArch, nr: i64, arg0: u64, arg1: u64, arg2: u64) -> DecodedSyscall {
    let n = numbers_of(arch);
    let addr_len = if (arg2 as usize) < MAX_SOCKADDR_LEN {
        arg2 as usize
    } else {
        MAX_SOCKADDR_LEN
    };
    if nr == n.clock_gettime {
        DecodedSyscall::Ready(InterceptedSyscall::ClockGettime { clock_id: arg0 as i32 })
    } else if nr == n.gettimeofday {
        DecodedSyscall::Ready(InterceptedSyscall::GetTimeOfDay)
    } else if nr == n.nanosleep {
        DecodedSyscall::Ready(InterceptedSyscall::Nanosleep { requested_ns: arg0 })
    } else if nr == n.getrandom {
        DecodedSyscall::Ready(InterceptedSyscall::GetRandom { len: arg1 as usize })
    } else if nr == n.socket {
        DecodedSyscall::Ready(
            InterceptedSyscall::Socket { domain: arg0 as i32, sock_type: arg1 as i32, protocol: arg2 as i32 },
        )
    } else if nr == n.connect {
        DecodedSyscall::NeedsAddress { is_connect: true, fd: arg0 as i32, addr_ptr: arg1, addr_len }
    } else if nr == n.sendto {
        DecodedSyscall::Ready(InterceptedSyscall::Send { fd: arg0 as i32, len: arg2 as usize })
    } else if nr == n.recvfrom {
        DecodedSyscall::Ready(InterceptedSyscall::Recv { fd: arg0 as i32, len: arg2 as usize })
    } else if nr == n.accept {
        DecodedSyscall::Ready(InterceptedSyscall::Accept { fd: arg0 as i32 })
    } else if nr == n.bind {
        DecodedSyscall::NeedsAddress { is_connect: false, fd: arg0 as i32, addr_ptr: arg1, addr_len }
    } else {
        DecodedSyscall::Ready(InterceptedSyscall::Unknown { syscall_nr: nr })
    }
}

/// Decodes a syscall stop from its number and first three arguments.
pub fn decode_syscall(arch: TargetArch, nr: i64, arg0: u64, arg1: u64, arg2: u64) -> (d: DecodedSyscall)
    requires
        arch != TargetArch::Other,
    ensures
        d == decoded(arch, nr, arg0, arg1, arg2),
{
    let n = syscall_numbers(arch);
    let addr_len = if (arg2 as usize) < MAX_SOCKADDR_LEN {
        arg2 as usize
    } else {
        MAX_SOCKADDR_LEN
    };
    if nr == n.clock_gettime {
        DecodedSyscall::Ready(InterceptedSyscall::ClockGettime { clock_id: arg0 as i32 })
    } else if nr == n.gettimeofday {
        DecodedSyscall::Ready(InterceptedSyscall::GetTimeOfDay)
    } else if nr == n.nanosleep {
        DecodedSyscall::Ready(InterceptedSyscall::Nanosleep { requested_ns: arg0 })
    } else if nr == n.getrandom {
        DecodedSyscall::Ready(InterceptedSyscall::GetRandom { len: arg1 as usize })
    } else if nr == n.socket {
        DecodedSyscall::Ready(
            InterceptedSyscall::Socket { domain: arg0 as i32, sock_type: arg1 as i32, protocol: arg2 as i32 },
        )
    } else if nr == n.connect {
        DecodedSyscall::NeedsAddress { is_connect: true, fd: arg0 as i32, addr_ptr: arg1, addr_len }
    } else if nr == n.sendto {
        DecodedSyscall::Ready(InterceptedSyscall::Send { fd: arg0 as i32, len: arg2 as usize })
    } else if nr == n.recvfrom {
        DecodedSyscall::Ready(InterceptedSyscall::Recv { fd: arg0 as i32, len: arg2 as usize })
    } else if nr == n.accept {
        DecodedSyscall::Ready(InterceptedSyscall::Accept { fd: arg0 as i32 })
    } else if nr == n.bind {
        DecodedSyscall::NeedsAddress { is_connect: false, fd: arg0 as i32, addr_ptr: arg1, addr_len }
    } else {
        DecodedSyscall::Ready(InterceptedSyscall::Unknown { syscall_nr: nr })
    }
}

/// Completes a `connect` or `bind` with the address bytes read.
pub fn with_address(is_connect: bool, fd: i32, addr: Vec<u8>) -> (s: InterceptedSyscall)
    ensures
        s == if is_connect {
            InterceptedSyscall::Connect { fd, addr }
        } else {
            InterceptedSyscall::Bind { fd, addr }
        },
{
    if is_connect {
        InterceptedSyscall::Connect { fd, addr }
    } else {
        InterceptedSyscall::Bind { fd, addr }
    }
}

/// Where a traced thread is.
#[derive(Debug, Clone, Copy, PartialEq, Eq, Structural)]
pub enum ThreadState {
    /// Resumed and running.
    Running,
    /// Stopped at a syscall entry, waiting for the tracer's answer.
    SyscallEntry,
}

/// A wait status, as far as the tracer acts on it.
#[derive(Debug, Clone, Copy, PartialEq, Eq, Structural)]
pub enum WaitEvent {
    /// Nothing happened yet (a non-blocking wait).
    StillAlive,
    /// The thread stopped at a syscall entry.
    Syscall(i32),
    /// `parent` cloned a thread: `Some(child)` once attached, `None` when the
    /// child exited before it could be.
    Clone { parent: i32, child: Option<i32> },
    /// The thread stopped on a signal, which is passed on.
    Stopped(i32),
    /// The thread exited.
    Exited(i32),
    /// The thread was killed by a signal.
    Signaled(i32),
    /// Any other status.
    Other,
}

/// What the tracer does after a wait status.
#[derive(Debug, Clone, Copy, PartialEq, Eq, Structural)]
pub enum WaitStep {
    /// Wait again.
    Retry,
    /// Hand the syscall of this thread to the handler.
    SyscallEntered(i32),
    /// The traced process is gone: stop tracing.
    Finished,
    /// The traced process was killed by a signal: stop with an error.
    Killed,
}

/// The threads being traced, each with its state, and the thread group leader.
pub struct ThreadTable {
    threads: Vec<(i32, ThreadState)>,
    leader: Option<i32>,
}

/// The state the table gives `tid`, if it holds it.
pub open spec fn state_in(t: Seq<(i32, ThreadState)>, tid: i32) -> Option<ThreadState>
    decreases t.len(),
{
    if t.len() == 0 {
        None
    } else if t[0].0 == tid {
        Some(t[0].1)
    } else {
        state_in(t.skip(1), tid)
    }
}

impl ThreadTable {
    /// The traced threads and their states, in the order they were added.
    pub closed spec fn entries(&self) -> Seq<(i32, ThreadState)> {
        self.threads@
    }

    /// The thread group leader, once known.
    pub closed spec fn leader(&self) -> Option<i32> {
        self.leader
    }

    /// The table as a map from thread id to state.
    pub open spec fn states(&self) -> Map<i32, ThreadState> {
        Map::new(
            |tid: i32| exists|i: int| 0 <= i < self.entries().len() && (#[trigger] self.entries()[i]).0 == tid,
            |tid: i32| state_in(self.entries(), tid)->0,
        )
    }

    /// No thread is listed twice.
    pub open spec fn wf(&self) -> bool {
        forall|i: int, j: int|
            0 <= i < j < self.entries().len() ==> (#[trigger] self.entries()[i]).0 != (#[trigger] self.entries()[j]).0
    }

    /// An empty table with no leader.
    pub fn new() -> (t: Self)
        ensures
            t.wf(),
            t.entries().len() == 0,
            t.leader() is None,
    {
        ThreadTable { threads: Vec::new(), leader: None }
    }

    /// Records the thread group leader.
    pub fn set_leader(&mut self, tid: i32)
        requires
            old(self).wf(),
        ensures
            final(self).wf(),
            final(self).leader() == Some(tid),
            final(self).entries() == old(self).entries(),
    {
        self.leader = Some(tid);
        assert(self.entries() == old(self).entries());
    }

    /// The thread group leader, once known.
    pub fn leader_tid(&self) -> (l: Option<i32>)
        ensures
            l == self.leader(),
    {
        self.leader
    }

    /// The number of traced threads.
    pub fn thread_count(&self) -> (n: usize)
        ensures
            n == self.entries().len(),
    {
        self.threads.len()
    }

    /// The position of `tid` in the table.
    fn position(&self, tid: i32) -> (r: Option<usize>)
        requires
            self.wf(),
        ensures
            match r {
                Some(i) => i < self.entries().len() && self.entries()[i as int].0 == tid,
                None => forall|i: int| 0 <= i < self.entries().len() ==> (#[trigger] self.entries()[i]).0 != tid,
            },
    {
        let mut i: usize = 0;
        while i < self.threads.len()
            invariant
                i <= self.entries().len(),
                forall|k: int| 0 <= k < i ==> (#[trigger] self.entries()[k]).0 != tid,
            decreases self.entries().len() - i,
        {
            if self.threads[i].0 == tid {
                return Some(i);
            }
            i = i + 1;
        }
        None
    }

    /// Sets the state of `tid`, adding it at the end when it is new.
    pub fn insert(&mut self, tid: i32, state: ThreadState)
        requires
            old(self).wf(),
        ensures
            final(self).wf(),
            final(self).leader() == old(self).leader(),
            final(self).states() == old(self).states().insert(tid, state),
    {
        proof {
            lemma_state_in_matches(self.entries());
        }
        match self.position(tid) {
            Some(i) => {
                self.threads.set(i, (tid, state));
            },
            None => {
                self.threads.push((tid, state));
            },
        }
        proof {
            lemma_state_in_matches(self.entries());
            assert(self.states() =~= old(self).states().insert(tid, state)) by {
                assert forall|x: i32| #[trigger] self.states().dom().contains(x) <==> old(self).states().insert(tid, state).dom().contains(x) by {
                    if x != tid && old(self).states().dom().contains(x) {
                        let k = choose|k: int| 0 <= k < old(self).entries().len() && (#[trigger] old(self).entries()[k]).0 == x;
                        assert(self.entries()[k].0 == x);
                    }
                    if x == tid {
                        let k = if self.entries().len() > old(self).entries().len() {
                            old(self).entries().len() as int
                        } else {
                            choose|k: int| 0 <= k < old(self).entries().len() && (#[trigger] old(self).entries()[k]).0 == tid
                        };
                        assert(self.entries()[k].0 == tid);
                    }
                    if self.states().dom().contains(x) && x != tid {
                        let k = choose|k: int| 0 <= k < self.entries().len() && (#[trigger] self.entries()[k]).0 == x;
                        assert(old(self).entries()[k].0 == x);
                    }
                }
            }
        }
    }

    /// Removes `tid` from the table, keeping the others in order.
    pub fn remove(&mut self, tid: i32)
        requires
            old(self).wf(),
        ensures
            final(self).wf(),
            final(self).leader() == old(self).leader(),
            final(self).states() == old(self).states().remove(tid),
    {
        proof {
            lemma_state_in_matches(self.entries());
        }
        if let Some(i) = self.position(tid) {
            let ghost before = self.entries();
            self.threads.remove(i);
            proof {
                assert(self.entries() == before.remove(i as int));
                assert forall|a: int, b: int|
                    0 <= a < b < self.entries().len() implies (#[trigger] self.entries()[a]).0 != (#[trigger] self.entries()[b]).0 by {
                    let a0 = if a < i { a } else { a + 1 };
                    let b0 = if b < i { b } else { b + 1 };
                    assert(self.entries()[a] == before[a0]);
                    assert(self.entries()[b] == before[b0]);
                }
                lemma_state_in_matches(self.entries());
                assert(self.states() =~= old(self).states().remove(tid)) by {
                    assert forall|x: i32| #[trigger] self.states().dom().contains(x) <==> old(self).states().remove(tid).dom().contains(x) by {
                        if x != tid && old(self).states().dom().contains(x) {
                            let k = choose|k: int| 0 <= k < before.len() && (#[trigger] before[k]).0 == x;
                            assert(k != i);
                            let k2 = if k < i { k } else { k - 1 };
                            assert(self.entries()[k2] == before[k]);
                        }
                        if self.states().dom().contains(x) {
                            let k = choose|k: int| 0 <= k < self.entries().len() && (#[trigger] self.entries()[k]).0 == x;
                            let k0 = if k < i { k } else { k + 1 };
                            assert(self.entries()[k] == before[k0]);
                        }
                    }
                    assert forall|x: i32| #[trigger] self.states().dom().contains(x) implies self.states()[x] == old(self).states().remove(tid)[x] by {
                        let k = choose|k: int| 0 <= k < self.entries().len() && (#[trigger] self.entries()[k]).0 == x;
                        let k0 = if k < i { k } else { k + 1 };
                        assert(self.entries()[k] == before[k0]);
                    }
                }
            }
        } else {
            proof {
                assert(self.states() =~= old(self).states().remove(tid));
            }
        }
    }

    /// The threads to resume before the next wait: those running.
    pub fn running_threads(&self) -> (r: Vec<i32>)
        requires
            self.wf(),
        ensures
            forall|tid: i32| r@.contains(tid) <==> (#[trigger] self.states().dom().contains(tid) && self.states()[tid] == ThreadState::Running),
    {
        proof {
            lemma_state_in_matches(self.entries());
        }
        let mut r: Vec<i32> = Vec::new();
        let mut i: usize = 0;
        while i < self.threads.len()
            invariant
                i <= self.entries().len(),
                forall|tid: i32| r@.contains(tid) <==> exists|k: int| 0 <= k < i && (#[trigger] self.entries()[k]).0 == tid && self.entries()[k].1 == ThreadState::Running,
            decreases self.entries().len() - i,
        {
            let ghost before = r@;
            let e = self.threads[i];
            if e.1 == ThreadState::Running {
                r.push(e.0);
            }
            proof {
                assert forall|tid: i32| r@.contains(tid) <==> exists|k: int| 0 <= k < i + 1 && (#[trigger] self.entries()[k]).0 == tid && self.entries()[k].1 == ThreadState::Running by {
                    if r@.contains(tid) && !before.contains(tid) {
                        let m = choose|m: int| 0 <= m < r@.len() && r@[m] == tid;
                        if m < before.len() {
                            assert(before[m] == tid);
                        }
                        assert(self.entries()[i as int].0 == tid);
                    }
                    if exists|k: int| 0 <= k < i + 1 && (#[trigger] self.entries()[k]).0 == tid && self.entries()[k].1 == ThreadState::Running {
                        let k = choose|k: int| 0 <= k < i + 1 && (#[trigger] self.entries()[k]).0 == tid && self.entries()[k].1 == ThreadState::Running;
                        if k < i {
                            assert(before.contains(tid));
                            let m = choose|m: int| 0 <= m < before.len() && before[m] == tid;
                            assert(r@[m] == tid);
                        } else {
                            assert(r@[r@.len() - 1] == tid);
                        }
                    }
                }
            }
            i = i + 1;
        }
        proof {
            assert forall|tid: i32| r@.contains(tid) <==> (#[trigger] self.states().dom().contains(tid) && self.states()[tid] == ThreadState::Running) by {
                if self.states().dom().contains(tid) {
                    let k = choose|k: int| 0 <= k < self.entries().len() && (#[trigger] self.entries()[k]).0 == tid;
                    assert(state_in(self.entries(), self.entries()[k].0) == Some(self.entries()[k].1));
                }
            }
        }
        r
    }

    /// Takes every thread out of the table, for detaching.
    pub fn drain(&mut self) -> (r: Vec<i32>)
        requires
            old(self).wf(),
        ensures
            final(self).wf(),
            final(self).entries().len() == 0,
            final(self).leader() == old(self).leader(),
            r@ == old(self).entries().map_values(|e: (i32, ThreadState)| e.0),
    {
        let mut r: Vec<i32> = Vec::new();
        let mut i: usize = 0;
        while i < self.threads.len()
            invariant
                i <= self.entries().len(),
                self.entries() == old(self).entries(),
                r@ == self.entries().take(i as int).map_values(|e: (i32, ThreadState)| e.0),
            decreases self.entries().len() - i,
        {
            r.push(self.threads[i].0);
            assert(self.entries().take(i + 1).map_values(|e: (i32, ThreadState)| e.0) =~= self.entries().take(i as int).map_values(|e: (i32, ThreadState)| e.0).push(self.entries()[i as int].0));
            i = i + 1;
        }
        assert(self.entries().take(i as int) =~= self.entries());
        self.threads = Vec::new();
        r
    }

    /// Acts on one wait status: records where the threads are, and says
    /// whether to wait again, answer a syscall, or stop. The process is gone
    /// when its leader exits or no thread is left; a leader (or last thread)
    /// killed by a signal is an error.
    pub fn on_wait_event(&mut self, event: WaitEvent) -> (step: WaitStep)
        requires
            old(self).wf(),
        ensures
            final(self).wf(),
            final(self).leader() == old(self).leader(),
            match event {
                WaitEvent::StillAlive | WaitEvent::Other => step == WaitStep::Retry && final(self).states() == old(self).states(),
                WaitEvent::Syscall(tid) => step == WaitStep::SyscallEntered(tid)
                    && final(self).states() == old(self).states().insert(tid, ThreadState::SyscallEntry),
                WaitEvent::Clone { parent, child } => step == WaitStep::Retry && final(self).states() == match child {
                    Some(c) => old(self).states().insert(c, ThreadState::Running).insert(parent, ThreadState::Running),
                    None => old(self).states().insert(parent, ThreadState::Running),
                },
                WaitEvent::Stopped(tid) => step == WaitStep::Retry && final(self).states() == if old(self).states().dom().contains(tid) {
                    old(self).states().insert(tid, ThreadState::Running)
                } else {
                    old(self).states()
                },
                WaitEvent::Exited(tid) => final(self).states() == old(self).states().remove(tid)
                    && step == if old(self).leader() == Some(tid) || final(self).states().dom().len() == 0 {
                        WaitStep::Finished
                    } else {
                        WaitStep::Retry
                    },
                WaitEvent::Signaled(tid) => final(self).states() == old(self).states().remove(tid)
                    && step == if old(self).leader() == Some(tid) || final(self).states().dom().len() == 0 {
                        WaitStep::Killed
                    } else {
                        WaitStep::Retry
                    },
            },
    {
        match event {
            WaitEvent::StillAlive | WaitEvent::Other => WaitStep::Retry,
            WaitEvent::Syscall(tid) => {
                self.insert(tid, ThreadState::SyscallEntry);
                WaitStep::SyscallEntered(tid)
            },
            WaitEvent::Clone { parent, child } => {
                if let Some(c) = child {
                    self.insert(c, ThreadState::Running);
                }
                self.insert(parent, ThreadState::Running);
                WaitStep::Retry
            },
            WaitEvent::Stopped(tid) => {
                proof {
                    lemma_state_in_matches(self.entries());
                }
                if self.position(tid).is_some() {
                    self.insert(tid, ThreadState::Running);
                } else {
                    assert(!self.states().dom().contains(tid));
                }
                WaitStep::Retry
            },
            WaitEvent::Exited(tid) => {
                self.remove(tid);
                let empty = self.threads.len() == 0;
                proof {
                    lemma_states_len(self);
                }
                if self.leader == Some(tid) || empty {
                    WaitStep::Finished
                } else {
                    WaitStep::Retry
                }
            },
            WaitEvent::Signaled(tid) => {
                self.remove(tid);
                let empty = self.threads.len() == 0;
                proof {
                    lemma_states_len(self);
                }
                if self.leader == Some(tid) || empty {
                    WaitStep::Killed
                } else {
                    WaitStep::Retry
                }
            },
        }
    }
}

/// In a table without repeated threads, the state found for a listed thread
/// is its own.
proof fn lemma_state_in_matches(t: Seq<(i32, ThreadState)>)
    requires
        forall|i: int, j: int| 0 <= i < j < t.len() ==> (#[trigger] t[i]).0 != (#[trigger] t[j]).0,
    ensures
        forall|k: int| 0 <= k < t.len() ==> state_in(t, #[trigger] t[k].0) == Some(t[k].1),
        forall|tid: i32| (forall|k: int| 0 <= k < t.len() ==> (#[trigger] t[k]).0 != tid) ==> state_in(t, tid) is None,
    decreases t.len(),
{
    if t.len() > 0 {
        let r = t.skip(1);
        assert forall|i: int, j: int| 0 <= i < j < r.len() implies (#[trigger] r[i]).0 != (#[trigger] r[j]).0 by {
            assert(r[i] == t[i + 1]);
            assert(r[j] == t[j + 1]);
        }
        lemma_state_in_matches(r);
        assert forall|k: int| 0 <= k < t.len() implies state_in(t, #[trigger] t[k].0) == Some(t[k].1) by {
            if k > 0 {
                assert(t[k] == r[k - 1]);
                assert(t[0].0 != t[k].0);
            }
        }
        assert forall|tid: i32| (forall|k: int| 0 <= k < t.len() ==> (#[trigger] t[k]).0 != tid) implies state_in(t, tid) is None by {
            assert(t[0].0 != tid);
            assert forall|k: int| 0 <= k < r.len() implies (#[trigger] r[k]).0 != tid by {
                assert(r[k] == t[k + 1]);
            }
            assert(state_in(t, tid) == state_in(r, tid));
            assert(state_in(r, tid) is None);
        }
    }
}

/// The table's map has one key per listed thread.
proof fn lemma_states_len(t: &ThreadTable)
    requires
        t.wf(),
    ensures
        t.states().dom().len() == 0 <==> t.entries().len() == 0,
{
    if t.entries().len() == 0 {
        assert(t.states().dom() =~= Set::<i32>::empty());
    } else {
        assert(t.states().dom().contains(t.entries()[0].0));
        assert(t.states().dom().finite()) by {
            let s = t.entries().map_values(|e: (i32, ThreadState)| e.0).to_set();
            assert(t.states().dom() =~= s) by {
                assert forall|x: i32| t.states().dom().contains(x) <==> s.contains(x) by {
                    if t.states().dom().contains(x) {
                        let k = choose|k: int| 0 <= k < t.entries().len() && (#[trigger] t.entries()[k]).0 == x;
                        assert(t.entries().map_values(|e: (i32, ThreadState)| e.0)[k] == x);
                    }
                    if s.contains(x) {
                        let ids = t.entries().map_values(|e: (i32, ThreadState)| e.0);
                        let k = choose|k: int| 0 <= k < ids.len() && #[trigger] ids[k] == x;
                        assert(t.entries()[k].0 == x);
                    }
                }
            }
            vstd::seq_lib::seq_to_set_is_finite(t.entries().map_values(|e: (i32, ThreadState)| e.0));
        }
        vstd::set_lib::lemma_set_empty_equivalency_len(t.states().dom());
    }
}

} // verus!
