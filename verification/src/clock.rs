//! The virtual clock: simulation time and the timers waiting on it.
//!
//! Timers are kept in a vector ordered by `(wake_time, priority, callback_id)`,
//! so the next timer to fire is always at the front.

use vstd::prelude::*;
use crate::types::VirtualTime;

verus! {

/// A timer registered in the virtual clock, generic over its payload.
#[derive(Debug, Clone)]
pub struct Timer<T> {
    pub wake_time: VirtualTime,
    pub callback_id: u64,
    pub priority: u8,
    pub payload: T,
}

/// Firing order of timers: earlier wake time first, then lower priority value,
/// then the timer that was scheduled first.
pub open spec fn fires_before<T>(a: Timer<T>, b: Timer<T>) -> bool {
    ||| a.wake_time.0 < b.wake_time.0
    ||| (a.wake_time.0 == b.wake_time.0 && a.priority < b.priority)
    ||| (a.wake_time.0 == b.wake_time.0 && a.priority == b.priority && a.callback_id
        < b.callback_id)
}

/// The timers are listed in strict firing order.
pub open spec fn in_firing_order<T>(s: Seq<Timer<T>>) -> bool {
    forall|i: int, j: int| 0 <= i < j < s.len() ==> fires_before(#[trigger] s[i], #[trigger] s[j])
}

/// The later of two instants.
pub open spec fn later(a: u64, b: u64) -> u64 {
    if b > a {
        b
    } else {
        a
    }
}

/// The virtual clock managing simulation time and timers.
pub struct VirtualClock<T> {
    current_time: VirtualTime,
    timers: Vec<Timer<T>>,
    next_callback_id: u64,
}

impl<T> VirtualClock<T> {
    /// The current virtual time.
    pub closed spec fn time(&self) -> VirtualTime {
        self.current_time
    }

    /// The pending timers, in the order in which they will fire.
    pub closed spec fn pending(&self) -> Seq<Timer<T>> {
        self.timers@
    }

    /// The callback id that the next scheduled timer will receive.
    pub closed spec fn next_id(&self) -> u64 {
        self.next_callback_id
    }

    /// The clock's invariant: pending timers are in strict firing order and
    /// every callback id handed out so far is below `next_id`.
    pub open spec fn wf(&self) -> bool {
        &&& in_firing_order(self.pending())
        &&& forall|i: int| 0 <= i < self.pending().len() ==> (#[trigger] self.pending()[i]).callback_id
            < self.next_id()
    }

    /// A clock at time zero with no timers.
    pub fn new() -> (c: Self)
        ensures
            c.wf(),
            c.time() == VirtualTime(0),
            c.pending() == Seq::<Timer<T>>::empty(),
            c.next_id() == 0,
    {
        VirtualClock { current_time: VirtualTime(0), timers: Vec::new(), next_callback_id: 0 }
    }

    /// The current virtual time.
    pub fn now(&self) -> (t: VirtualTime)
        ensures
            t == self.time(),
    {
        self.current_time
    }

    /// Schedules a timer with a payload and priority and returns its callback id.
    /// Lower priority values fire first at the same wake time.
    pub fn schedule(&mut self, wake_time: VirtualTime, priority: u8, payload: T) -> (id: u64)
        requires
            old(self).wf(),
            old(self).next_id() < u64::MAX,
        ensures
            final(self).wf(),
            id == old(self).next_id(),
            final(self).next_id() == old(self).next_id() + 1,
            final(self).time() == old(self).time(),
            forall|i: int|
                0 <= i < old(self).pending().len() ==> (#[trigger] old(self).pending()[i]).callback_id
                    != id,
            exists|k: int|
                0 <= k <= old(self).pending().len() && final(self).pending() == #[trigger] old(self).pending().insert(
                    k,
                    Timer { wake_time, callback_id: id, priority, payload },
                ),
    {
        let callback_id = self.next_callback_id;
        self.next_callback_id = self.next_callback_id + 1;
        let ghost t = Timer { wake_time, callback_id, priority, payload };
        let ghost old_timers = self.timers@;
        let mut pos: usize = 0;
        while pos < self.timers.len() && !(wake_time.0 < self.timers[pos].wake_time.0 || (wake_time.0
            == self.timers[pos].wake_time.0 && priority < self.timers[pos].priority))
            invariant
                pos <= self.timers@.len(),
                self.timers@ == old_timers,
                t.wake_time == wake_time,
                t.priority == priority,
                t.callback_id == callback_id,
                in_firing_order(old_timers),
                forall|i: int| 0 <= i < old_timers.len() ==> (#[trigger] old_timers[i]).callback_id
                    < callback_id,
                forall|i: int| 0 <= i < pos ==> fires_before(#[trigger] old_timers[i], t),
            decreases self.timers@.len() - pos,
        {
            pos = pos + 1;
        }
        let timer = Timer { wake_time, callback_id, priority, payload };
        assert(timer == t);
        self.timers.insert(pos, timer);
        proof {
            let s = self.timers@;
            assert(s == old_timers.insert(pos as int, t));
            if pos < old_timers.len() {
                assert(fires_before(t, old_timers[pos as int]));
            }
            assert forall|i: int, j: int| 0 <= i < j < s.len() implies fires_before(
                #[trigger] s[i],
                #[trigger] s[j],
            ) by {
                if j < pos {
                } else if j == pos {
                } else if i < pos {
                    assert(s[j] == old_timers[j - 1]);
                    if (pos as int) < j - 1 {
                        assert(fires_before(old_timers[pos as int], old_timers[j - 1]));
                    }
                } else if i == pos {
                    assert(s[j] == old_timers[j - 1]);
                    if (pos as int) < j - 1 {
                        assert(fires_before(old_timers[pos as int], old_timers[j - 1]));
                    }
                } else {
                    assert(s[i] == old_timers[i - 1]);
                    assert(s[j] == old_timers[j - 1]);
                }
            }
            assert forall|i: int| 0 <= i < s.len() implies (#[trigger] s[i]).callback_id
                < self.next_callback_id by {
                if i < pos {
                    assert(s[i] == old_timers[i]);
                } else if i > pos {
                    assert(s[i] == old_timers[i - 1]);
                }
            }
        }
        callback_id
    }

    /// Schedules a timer `delay` after the current time.
    pub fn schedule_after(&mut self, delay: VirtualTime, priority: u8, payload: T) -> (id: u64)
        requires
            old(self).wf(),
            old(self).next_id() < u64::MAX,
            old(self).time().0 + delay.0 <= u64::MAX,
        ensures
            final(self).wf(),
            id == old(self).next_id(),
            final(self).next_id() == old(self).next_id() + 1,
            final(self).time() == old(self).time(),
            forall|i: int|
                0 <= i < old(self).pending().len() ==> (#[trigger] old(self).pending()[i]).callback_id
                    != id,
            exists|k: int|
                0 <= k <= old(self).pending().len() && final(self).pending() == #[trigger] old(self).pending().insert(
                    k,
                    Timer {
                        wake_time: VirtualTime((old(self).time().0 + delay.0) as u64),
                        callback_id: id,
                        priority,
                        payload,
                    },
                ),
    {
        let wake_time = self.current_time + delay;
        self.schedule(wake_time, priority, payload)
    }

    /// Returns true if there are no pending timers.
    pub fn is_empty(&self) -> (b: bool)
        ensures
            b == (self.pending().len() == 0),
    {
        self.timers.len() == 0
    }

    /// Advances to the next timer and returns all expired timers up to that time,
    /// in firing order. With no timers pending, nothing changes.
    #[must_use]
    pub fn tick(&mut self) -> (expired: Vec<Timer<T>>)
        requires
            old(self).wf(),
        ensures
            final(self).wf(),
            final(self).next_id() == old(self).next_id(),
            final(self).time().0 >= old(self).time().0,
            old(self).pending().len() == 0 ==> expired@ == Seq::<Timer<T>>::empty() && final(self).pending() == old(self).pending() && final(self).time() == old(self).time(),
            old(self).pending().len() > 0 ==> {
                &&& final(self).time().0 == later(old(self).time().0, old(self).pending()[0].wake_time.0)
                &&& expired@.len() > 0
                &&& expired@ + final(self).pending() == old(self).pending()
                &&& forall|i: int|
                    0 <= i < expired@.len() ==> (#[trigger] expired@[i]).wake_time.0 <= final(self).time().0
                &&& forall|i: int|
                    0 <= i < final(self).pending().len() ==> (#[trigger] final(self).pending()[i]).wake_time.0 > final(self).time().0
            },
            in_firing_order(expired@),
    {
        if self.timers.len() == 0 {
            return Vec::new();
        }
        let next_time = self.timers[0].wake_time;
        if next_time.0 > self.current_time.0 {
            self.current_time = next_time;
        }
        let ghost old_timers = self.timers@;
        let mut k: usize = 0;
        while k < self.timers.len() && self.timers[k].wake_time.0 <= self.current_time.0
            invariant
                k <= self.timers@.len(),
                self.timers@ == old_timers,
                forall|i: int| 0 <= i < k ==> (#[trigger] old_timers[i]).wake_time.0
                    <= self.current_time.0,
            decreases self.timers@.len() - k,
        {
            k = k + 1;
        }
        assert(k >= 1);
        let mut rest = self.timers.split_off(k);
        std::mem::swap(&mut self.timers, &mut rest);
        proof {
            let e = rest@;
            let r = self.timers@;
            assert(e + r =~= old_timers);
            assert forall|i: int| 0 <= i < r.len() implies (#[trigger] r[i]).wake_time.0
                > self.current_time.0 by {
                assert(r[i] == old_timers[k + i]);
                if i > 0 {
                    assert(fires_before(old_timers[k as int], old_timers[k + i]));
                }
            }
            assert forall|i: int, j: int| 0 <= i < j < r.len() implies fires_before(
                #[trigger] r[i],
                #[trigger] r[j],
            ) by {
                assert(r[i] == old_timers[k + i]);
                assert(r[j] == old_timers[k + j]);
            }
            assert forall|i: int, j: int| 0 <= i < j < e.len() implies fires_before(
                #[trigger] e[i],
                #[trigger] e[j],
            ) by {
                assert(e[i] == old_timers[i]);
                assert(e[j] == old_timers[j]);
            }
            assert forall|i: int| 0 <= i < r.len() implies (#[trigger] r[i]).callback_id
                < self.next_callback_id by {
                assert(r[i] == old_timers[k + i]);
            }
            assert forall|i: int| 0 <= i < e.len() implies (#[trigger] e[i]).wake_time.0
                <= self.current_time.0 by {
                assert(e[i] == old_timers[i]);
            }
        }
        rest
    }
}

impl<T> Default for VirtualClock<T> {
    /// A clock at time zero with no timers.
    fn default() -> (c: Self)
        ensures
            c.wf(),
            c.time() == VirtualTime(0),
            c.pending() == Seq::<Timer<T>>::empty(),
            c.next_id() == 0,
    {
        VirtualClock::new()
    }
}

/// Law: of two pending timers due at the same time, the one with the lower
/// priority value fires first.
pub proof fn lower_priority_value_fires_first<T>(c: VirtualClock<T>, i: int, j: int)
    requires
        c.wf(),
        0 <= i < c.pending().len(),
        0 <= j < c.pending().len(),
        c.pending()[i].wake_time == c.pending()[j].wake_time,
        c.pending()[i].priority < c.pending()[j].priority,
    ensures
        i < j,
{
    if j < i {
        assert(fires_before(c.pending()[j], c.pending()[i]));
    }
    if i == j {
    }
}

/// Law: a pending timer due earlier fires before one due later, whatever
/// their priorities.
pub proof fn earlier_wake_fires_first<T>(c: VirtualClock<T>, i: int, j: int)
    requires
        c.wf(),
        0 <= i < c.pending().len(),
        0 <= j < c.pending().len(),
        c.pending()[i].wake_time.0 < c.pending()[j].wake_time.0,
    ensures
        i < j,
{
    if j < i {
        assert(fires_before(c.pending()[j], c.pending()[i]));
    }
}

} // verus!
