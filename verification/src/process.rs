//! The table of simulated processes across all nodes.

use vstd::prelude::*;
use crate::types::{NodeId, VirtualTime};

verus! {

/// Represents a simulated process ID.
#[derive(Debug, Clone, Copy, PartialEq, Eq, Structural, PartialOrd, Ord, Hash)]
pub struct ProcessId(pub u32);

/// The state of a simulated process.
#[derive(Debug, Clone, Copy, PartialEq, Eq, Structural)]
pub enum ProcessState {
    Starting,
    Running,
    Sleeping,
    Blocked,
    Crashed,
    Killed,
}

/// A tracked process in the simulation.
#[derive(Debug, Clone)]
pub struct TrackedProcess {
    pub pid: ProcessId,
    pub node_id: NodeId,
    pub name: String,
    pub state: ProcessState,
    pub started_at: VirtualTime,
}

/// Whether a process in this state still counts as alive.
pub open spec fn is_alive_state(s: ProcessState) -> bool {
    match s {
        ProcessState::Starting | ProcessState::Running | ProcessState::Sleeping
        | ProcessState::Blocked => true,
        _ => false,
    }
}

/// `p` with its state replaced.
pub open spec fn with_state(p: TrackedProcess, s: ProcessState) -> TrackedProcess {
    TrackedProcess { state: s, ..p }
}

/// Table tracking all processes across all simulated nodes. Process ids are
/// handed out in order from zero, and the process with id `i` is entry `i`.
pub struct ProcessTable {
    processes: Vec<TrackedProcess>,
    next_pid: u32,
}

impl ProcessTable {
    /// The tracked processes, listed by process id.
    pub closed spec fn entries(&self) -> Seq<TrackedProcess> {
        self.processes@
    }

    /// The id the next registered process will receive.
    pub closed spec fn next_pid(&self) -> u32 {
        self.next_pid
    }

    /// The table as a map from process id to process.
    pub open spec fn view_map(&self) -> Map<ProcessId, TrackedProcess> {
        Map::new(
            |p: ProcessId| 0 <= p.0 < self.entries().len(),
            |p: ProcessId| self.entries()[p.0 as int],
        )
    }

    /// Entry `i` holds the process with id `i`, and ids below `next_pid` are taken.
    pub open spec fn wf(&self) -> bool {
        &&& self.entries().len() == self.next_pid()
        &&& forall|i: int| 0 <= i < self.entries().len() ==> (#[trigger] self.entries()[i]).pid.0
            == i
    }

    /// An empty table; the first process will get id 0.
    pub fn new() -> (t: Self)
        ensures
            t.wf(),
            t.entries() == Seq::<TrackedProcess>::empty(),
    {
        ProcessTable { processes: Vec::new(), next_pid: 0 }
    }

    /// Registers a new process in the `Starting` state and returns its id.
    pub fn register(&mut self, node_id: NodeId, name: String, started_at: VirtualTime) -> (pid:
        ProcessId)
        requires
            old(self).wf(),
            old(self).next_pid() < u32::MAX,
        ensures
            final(self).wf(),
            pid.0 == old(self).next_pid(),
            !old(self).view_map().dom().contains(pid),
            final(self).entries() == old(self).entries().push(
                TrackedProcess { pid, node_id, name, state: ProcessState::Starting, started_at },
            ),
    {
        let pid = ProcessId(self.next_pid);
        self.next_pid = self.next_pid + 1;
        let process = TrackedProcess {
            pid,
            node_id,
            name,
            state: ProcessState::Starting,
            started_at,
        };
        self.processes.push(process);
        pid
    }

    fn set_state(&mut self, pid: ProcessId, state: ProcessState) -> (found: bool)
        requires
            old(self).wf(),
        ensures
            final(self).wf(),
            found == old(self).view_map().dom().contains(pid),
            found ==> final(self).entries() == old(self).entries().update(
                pid.0 as int,
                with_state(old(self).entries()[pid.0 as int], state),
            ),
            !found ==> final(self).entries() == old(self).entries(),
    {
        let i = pid.0 as usize;
        if i < self.processes.len() {
            let mut p = self.processes.remove(i);
            p.state = state;
            self.processes.insert(i, p);
            proof {
                assert(self.processes@ =~= old(self).entries().update(
                    i as int,
                    with_state(old(self).entries()[i as int], state),
                ));
                assert forall|j: int| 0 <= j < self.entries().len() implies (#[trigger] self.entries()[j]).pid.0
                    == j by {
                    if j != i {
                        assert(self.entries()[j] == old(self).entries()[j]);
                    }
                }
            }
            true
        } else {
            false
        }
    }

    /// Marks a process as killed; returns whether the process exists.
    pub fn kill(&mut self, pid: ProcessId) -> (found: bool)
        requires
            old(self).wf(),
        ensures
            final(self).wf(),
            found == old(self).view_map().dom().contains(pid),
            found ==> final(self).view_map() == old(self).view_map().insert(
                pid,
                with_state(old(self).view_map()[pid], ProcessState::Killed),
            ),
            !found ==> final(self).view_map() == old(self).view_map(),
    {
        let r = self.set_state(pid, ProcessState::Killed);
        assert(r ==> final(self).view_map() =~= old(self).view_map().insert(
            pid,
            with_state(old(self).view_map()[pid], ProcessState::Killed),
        ));
        assert(!r ==> final(self).view_map() =~= old(self).view_map());
        r
    }

    /// Marks a process as crashed; returns whether the process exists.
    pub fn crash(&mut self, pid: ProcessId) -> (found: bool)
        requires
            old(self).wf(),
        ensures
            final(self).wf(),
            found == old(self).view_map().dom().contains(pid),
            found ==> final(self).view_map() == old(self).view_map().insert(
                pid,
                with_state(old(self).view_map()[pid], ProcessState::Crashed),
            ),
            !found ==> final(self).view_map() == old(self).view_map(),
    {
        let r = self.set_state(pid, ProcessState::Crashed);
        assert(r ==> final(self).view_map() =~= old(self).view_map().insert(
            pid,
            with_state(old(self).view_map()[pid], ProcessState::Crashed),
        ));
        assert(!r ==> final(self).view_map() =~= old(self).view_map());
        r
    }

    /// Gets a reference to a process by id.
    pub fn get(&self, pid: ProcessId) -> (r: Option<&TrackedProcess>)
        requires
            self.wf(),
        ensures
            self.view_map().dom().contains(pid) ==> r == Some(&self.view_map()[pid]),
            !self.view_map().dom().contains(pid) ==> r is None,
    {
        let i = pid.0 as usize;
        if i < self.processes.len() {
            Some(&self.processes[i])
        } else {
            None
        }
    }

    /// Lists all processes on a given node, in process-id order.
    pub fn list_by_node(&self, node_id: NodeId) -> (r: Vec<&TrackedProcess>)
        requires
            self.wf(),
        ensures
            r@.map_values(|p: &TrackedProcess| *p) == self.entries().filter(
                |p: TrackedProcess| p.node_id == node_id,
            ),
    {
        let mut out: Vec<&TrackedProcess> = Vec::new();
        let mut i: usize = 0;
        while i < self.processes.len()
            invariant
                i <= self.entries().len(),
                out@.map_values(|p: &TrackedProcess| *p) == self.entries().take(i as int).filter(
                    |p: TrackedProcess| p.node_id == node_id,
                ),
            decreases self.entries().len() - i,
        {
            let p = &self.processes[i];
            proof {
                reveal_with_fuel(Seq::filter, 1);
                assert(self.entries().take(i + 1).drop_last() =~= self.entries().take(i as int));
            }
            if p.node_id == node_id {
                out.push(p);
            }
            i = i + 1;
            assert(out@.map_values(|p: &TrackedProcess| *p) =~= self.entries().take(i as int).filter(
                |p: TrackedProcess| p.node_id == node_id,
            ));
        }
        assert(self.entries().take(i as int) =~= self.entries());
        out
    }

    /// Lists all processes that are still alive, in process-id order.
    pub fn list_alive(&self) -> (r: Vec<&TrackedProcess>)
        requires
            self.wf(),
        ensures
            r@.map_values(|p: &TrackedProcess| *p) == self.entries().filter(
                |p: TrackedProcess| is_alive_state(p.state),
            ),
    {
        let mut out: Vec<&TrackedProcess> = Vec::new();
        let mut i: usize = 0;
        while i < self.processes.len()
            invariant
                i <= self.entries().len(),
                out@.map_values(|p: &TrackedProcess| *p) == self.entries().take(i as int).filter(
                    |p: TrackedProcess| is_alive_state(p.state),
                ),
            decreases self.entries().len() - i,
        {
            let p = &self.processes[i];
            proof {
                reveal_with_fuel(Seq::filter, 1);
                assert(self.entries().take(i + 1).drop_last() =~= self.entries().take(i as int));
            }
            let alive = match p.state {
                ProcessState::Starting | ProcessState::Running | ProcessState::Sleeping
                | ProcessState::Blocked => true,
                _ => false,
            };
            if alive {
                out.push(p);
            }
            i = i + 1;
            assert(out@.map_values(|p: &TrackedProcess| *p) =~= self.entries().take(i as int).filter(
                |p: TrackedProcess| is_alive_state(p.state),
            ));
        }
        assert(self.entries().take(i as int) =~= self.entries());
        out
    }
}

/// Law: once a process is killed or crashed it no longer counts as alive,
/// and the other processes are untouched.
pub proof fn stopped_process_not_alive(before: ProcessTable, after: ProcessTable, pid: ProcessId, state: ProcessState)
    requires
        state == ProcessState::Killed || state == ProcessState::Crashed,
        before.view_map().dom().contains(pid),
        after.view_map() == before.view_map().insert(pid, with_state(before.view_map()[pid], state)),
    ensures
        !is_alive_state(after.view_map()[pid].state),
        forall|q: ProcessId| q != pid ==> after.view_map().dom().contains(q) == before.view_map().dom().contains(q),
        forall|q: ProcessId| q != pid && before.view_map().dom().contains(q) ==> after.view_map()[q] == before.view_map()[q],
{
}

/// Law: every registered process gets an id no other process has.
pub proof fn registered_ids_distinct(t: ProcessTable, i: int, j: int)
    requires
        t.wf(),
        0 <= i < t.entries().len(),
        0 <= j < t.entries().len(),
        i != j,
    ensures
        t.entries()[i].pid != t.entries()[j].pid,
{
}

} // verus!
