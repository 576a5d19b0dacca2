//! The virtual network: messages between simulated nodes, delayed, dropped or
//! cut off by partitions.
//!
//! Pending messages are kept in one vector ordered by delivery time; messages
//! due at the same time stay in the order in which they were sent.

use vstd::prelude::*;
use rand::rngs::StdRng;
use crate::rng::{std_rng_from_seed, std_rng_next_u64, std_rng_range_inclusive};
use crate::seed::SimSeed;
use crate::types::{NodeId, VirtualTime};
use vstd::set_lib::{lemma_int_range, set_int_range};

verus! {

/// A message sent over the virtual network.
#[derive(Debug, Clone)]
pub struct Message {
    pub from: NodeId,
    pub to: NodeId,
    pub data: Vec<u8>,
    pub sent_at: VirtualTime,
}

/// A network partition between two groups of nodes.
#[derive(Debug, Clone)]
pub struct Partition {
    pub id: u64,
    pub nodes_a: Vec<NodeId>,
    pub nodes_b: Vec<NodeId>,
}

/// The number of distinct values a drop draw takes: a draw is the top 53 bits
/// of a 64-bit random word.
pub const DROP_DRAW_RANGE: u64 = 0x20_0000_0000_0000;

/// Whether `p` cuts `from` off from `to`, in either direction.
pub open spec fn separates(p: Partition, from: NodeId, to: NodeId) -> bool {
    (p.nodes_a@.contains(from) && p.nodes_b@.contains(to)) || (p.nodes_b@.contains(from)
        && p.nodes_a@.contains(to))
}

/// Whether some partition in `ps` cuts `from` off from `to`.
pub open spec fn any_separates(ps: Seq<Partition>, from: NodeId, to: NodeId) -> bool {
    exists|i: int| 0 <= i < ps.len() && separates(#[trigger] ps[i], from, to)
}

/// Pending messages are ordered by delivery time.
pub open spec fn by_delivery_time(s: Seq<(VirtualTime, Message)>) -> bool {
    forall|i: int, j: int| 0 <= i <= j < s.len() ==> (#[trigger] s[i]).0.0 <= (#[trigger] s[j]).0.0
}

/// A delivered message paired with its recipient.
pub open spec fn delivery(e: (VirtualTime, Message)) -> (NodeId, Message) {
    (e.1.to, e.1)
}

/// `s` with `e` placed after every entry due no later than it and before every
/// entry due later, at position `k`.
pub open spec fn queued_at(
    s: Seq<(VirtualTime, Message)>,
    k: int,
    e: (VirtualTime, Message),
    r: Seq<(VirtualTime, Message)>,
) -> bool {
    &&& 0 <= k <= s.len()
    &&& r == s.insert(k, e)
    &&& forall|i: int| 0 <= i < k ==> (#[trigger] s[i]).0.0 <= e.0.0
    &&& forall|i: int| k <= i < s.len() ==> (#[trigger] s[i]).0.0 > e.0.0
}

/// The drop draws under which `send` drops a message, for threshold `t`
/// (at most `2^53`): the `t` values below it, while the other `2^53 - t`
/// queue the message. With every draw equally likely, a message is dropped
/// with probability `t / 2^53`.
pub proof fn dropping_draws_number_the_threshold(t: u64)
    requires
        t <= DROP_DRAW_RANGE,
    ensures
        Set::new(|d: int| 0 <= d < DROP_DRAW_RANGE && d < t).finite(),
        Set::new(|d: int| 0 <= d < DROP_DRAW_RANGE && d < t).len() == t,
        Set::new(|d: int| 0 <= d < DROP_DRAW_RANGE && d >= t).finite(),
        Set::new(|d: int| 0 <= d < DROP_DRAW_RANGE && d >= t).len() == DROP_DRAW_RANGE - t,
{
    lemma_int_range(0, t as int);
    lemma_int_range(t as int, DROP_DRAW_RANGE as int);
    assert(Set::new(|d: int| 0 <= d < DROP_DRAW_RANGE && d < t) =~= set_int_range(0, t as int));
    assert(Set::new(|d: int| 0 <= d < DROP_DRAW_RANGE && d >= t) =~= set_int_range(t as int, DROP_DRAW_RANGE as int));
}

/// The virtual network mediating communication between simulated nodes.
///
/// The chance that a message is dropped is held as a threshold on 53-bit
/// draws: a message is dropped when the draw is below the threshold, so a
/// threshold of `p * 2^53` (rounded up) drops with probability `p`.
pub struct VirtualNetwork {
    pending_messages: Vec<(VirtualTime, Message)>,
    active_partitions: Vec<Partition>,
    drop_threshold: u64,
    delay_min_ms: u64,
    delay_max_ms: u64,
    rng: StdRng,
    next_partition_id: u64,
    drop_draws: Ghost<Seq<u64>>,
}

impl VirtualNetwork {
    /// Messages in flight with their delivery times, in delivery order.
    pub closed spec fn pending(&self) -> Seq<(VirtualTime, Message)> {
        self.pending_messages@
    }

    /// The active partitions, oldest first.
    pub closed spec fn partitions(&self) -> Seq<Partition> {
        self.active_partitions@
    }

    /// The drop threshold on 53-bit draws.
    pub closed spec fn drop_threshold(&self) -> u64 {
        self.drop_threshold
    }

    /// The smallest delay, in milliseconds.
    pub closed spec fn delay_min(&self) -> u64 {
        self.delay_min_ms
    }

    /// The largest delay, in milliseconds.
    pub closed spec fn delay_max(&self) -> u64 {
        self.delay_max_ms
    }

    /// The id the next partition will receive.
    pub closed spec fn next_id(&self) -> u64 {
        self.next_partition_id
    }

    /// The drop draws made so far, oldest first: for each message that no
    /// partition cut off, the top 53 bits of the random word drawn for it.
    pub closed spec fn drop_draws(&self) -> Seq<u64> {
        self.drop_draws@
    }

    /// The network's invariant: pending messages in delivery order, a
    /// non-empty delay range, and every partition id below `next_id`.
    pub open spec fn wf(&self) -> bool {
        &&& by_delivery_time(self.pending())
        &&& self.delay_min() <= self.delay_max()
        &&& forall|i: int| 0 <= i < self.partitions().len() ==> (#[trigger] self.partitions()[i]).id
            < self.next_id()
    }

    /// Whether a message from `from` to `to` is cut off by a partition.
    pub open spec fn blocks(&self, from: NodeId, to: NodeId) -> bool {
        any_separates(self.partitions(), from, to)
    }

    /// Creates a network with its random source seeded from `seed`: nothing in
    /// flight, no partitions, no drops and a delay of 1 to 10 ms.
    pub fn new(seed: SimSeed) -> (n: Self)
        ensures
            n.wf(),
            n.pending() == Seq::<(VirtualTime, Message)>::empty(),
            n.partitions() == Seq::<Partition>::empty(),
            n.drop_threshold() == 0,
            n.delay_min() == 1,
            n.delay_max() == 10,
            n.next_id() == 0,
            n.drop_draws() == Seq::<u64>::empty(),
    {
        VirtualNetwork {
            pending_messages: Vec::new(),
            active_partitions: Vec::new(),
            drop_threshold: 0,
            delay_min_ms: 1,
            delay_max_ms: 10,
            rng: std_rng_from_seed(seed.0),
            next_partition_id: 0,
            drop_draws: Ghost(Seq::empty()),
        }
    }

    /// Sets the drop threshold, capped at `DROP_DRAW_RANGE` (every message dropped).
    pub fn set_drop_threshold(&mut self, threshold: u64)
        requires
            old(self).wf(),
        ensures
            final(self).wf(),
            final(self).drop_threshold() == if threshold > DROP_DRAW_RANGE {
                DROP_DRAW_RANGE
            } else {
                threshold
            },
            final(self).pending() == old(self).pending(),
            final(self).partitions() == old(self).partitions(),
            final(self).delay_min() == old(self).delay_min(),
            final(self).delay_max() == old(self).delay_max(),
            final(self).next_id() == old(self).next_id(),
            final(self).drop_draws() == old(self).drop_draws(),
    {
        self.drop_threshold = if threshold > DROP_DRAW_RANGE {
            DROP_DRAW_RANGE
        } else {
            threshold
        };
        assert(self.partitions() == old(self).partitions());
    }

    /// Sets the delay range in milliseconds; a maximum below the minimum is
    /// raised to the minimum.
    pub fn set_delay_range(&mut self, min: u64, max: u64)
        requires
            old(self).wf(),
        ensures
            final(self).wf(),
            final(self).delay_min() == min,
            final(self).delay_max() == if max < min {
                min
            } else {
                max
            },
            final(self).pending() == old(self).pending(),
            final(self).partitions() == old(self).partitions(),
            final(self).drop_threshold() == old(self).drop_threshold(),
            final(self).next_id() == old(self).next_id(),
            final(self).drop_draws() == old(self).drop_draws(),
    {
        self.delay_min_ms = min;
        self.delay_max_ms = if max < min {
            min
        } else {
            max
        };
        assert(self.partitions() == old(self).partitions());
    }

    /// Adds a partition between two groups of nodes and returns its id.
    pub fn add_partition(&mut self, nodes_a: Vec<NodeId>, nodes_b: Vec<NodeId>) -> (id: u64)
        requires
            old(self).wf(),
            old(self).next_id() < u64::MAX,
        ensures
            final(self).wf(),
            id == old(self).next_id(),
            final(self).next_id() == old(self).next_id() + 1,
            final(self).drop_draws() == old(self).drop_draws(),
            final(self).partitions() == old(self).partitions().push(
                Partition { id, nodes_a, nodes_b },
            ),
            final(self).pending() == old(self).pending(),
            final(self).drop_threshold() == old(self).drop_threshold(),
            final(self).delay_min() == old(self).delay_min(),
            final(self).delay_max() == old(self).delay_max(),
    {
        let id = self.next_partition_id;
        self.next_partition_id = self.next_partition_id + 1;
        self.active_partitions.push(Partition { id, nodes_a, nodes_b });
        assert(forall|i: int|
            0 <= i < old(self).partitions().len() ==> self.partitions()[i] == old(
                self,
            ).partitions()[i]);
        id
    }

    /// Removes every partition with the given id.
    pub fn remove_partition(&mut self, id: u64)
        requires
            old(self).wf(),
        ensures
            final(self).wf(),
            final(self).partitions() == old(self).partitions().filter(|p: Partition| p.id != id),
            final(self).pending() == old(self).pending(),
            final(self).drop_threshold() == old(self).drop_threshold(),
            final(self).delay_min() == old(self).delay_min(),
            final(self).delay_max() == old(self).delay_max(),
            final(self).next_id() == old(self).next_id(),
            final(self).drop_draws() == old(self).drop_draws(),
    {
        let ghost orig = self.active_partitions@;
        let mut rest: Vec<Partition> = Vec::new();
        std::mem::swap(&mut rest, &mut self.active_partitions);
        let mut kept: Vec<Partition> = Vec::new();
        let ghost mut i: int = 0;
        while rest.len() > 0
            invariant
                0 <= i <= orig.len(),
                rest@ == orig.skip(i),
                kept@ == orig.take(i).filter(|p: Partition| p.id != id),
            decreases rest@.len(),
        {
            proof {
                assert(orig.take(i + 1).drop_last() =~= orig.take(i));
                assert(orig.take(i + 1).last() == orig[i]);
                reveal(Seq::filter);
            }
            let p = rest.remove(0);
            assert(p == orig[i]);
            if p.id != id {
                kept.push(p);
            }
            proof {
                assert(rest@ =~= orig.skip(i + 1));
                i = i + 1;
            }
        }
        proof {
            assert(orig.skip(i).len() == 0);
            assert(orig.take(i) =~= orig);
            let f = |p: Partition| p.id != id;
            assert forall|j: int| 0 <= j < kept@.len() implies (#[trigger] kept@[j]).id
                < self.next_partition_id by {
                assert(kept@ == orig.filter(f));
                assert(orig.filter(f)[j] == kept@[j]);
                assert(orig.filter(f).contains(kept@[j]));
                orig.lemma_filter_contains_rev(f, kept@[j]);
                let w = choose|w: int| 0 <= w < orig.len() && orig[w] == kept@[j];
                assert(old(self).partitions()[w].id < old(self).next_id());
            }
        }
        self.active_partitions = kept;
    }

    /// Whether a partition cuts `from` off from `to`.
    pub fn is_partitioned(&self, from: NodeId, to: NodeId) -> (b: bool)
        ensures
            b == self.blocks(from, to),
    {
        let n = self.active_partitions.len();
        let mut i: usize = 0;
        while i < n
            invariant
                n == self.partitions().len(),
                i <= n,
                forall|j: int| 0 <= j < i ==> !separates(#[trigger] self.partitions()[j], from, to),
            decreases n - i,
        {
            let p = &self.active_partitions[i];
            if (vec_contains(&p.nodes_a, from) && vec_contains(&p.nodes_b, to)) || (vec_contains(
                &p.nodes_b,
                from,
            ) && vec_contains(&p.nodes_a, to)) {
                assert(separates(self.partitions()[i as int], from, to));
                return true;
            }
            i = i + 1;
        }
        false
    }

    /// Sends a message at `current_time`. A message cut off by a partition is
    /// dropped without touching the random source; otherwise one draw decides
    /// whether it is dropped (its top 53 bits, recorded in `drop_draws`, below
    /// the threshold), and a second picks its delay within the range.
    pub fn send(&mut self, current_time: VirtualTime, from: NodeId, to: NodeId, data: Vec<u8>)
        requires
            old(self).wf(),
            current_time.0 + old(self).delay_max() * 1_000_000 <= u64::MAX,
        ensures
            final(self).wf(),
            final(self).partitions() == old(self).partitions(),
            final(self).drop_threshold() == old(self).drop_threshold(),
            final(self).delay_min() == old(self).delay_min(),
            final(self).delay_max() == old(self).delay_max(),
            final(self).next_id() == old(self).next_id(),
            old(self).blocks(from, to) ==> final(self).pending() == old(self).pending(),
            old(self).drop_threshold() >= DROP_DRAW_RANGE ==> final(self).pending() == old(self).pending(),
            !old(self).blocks(from, to) && old(self).drop_threshold() == 0 ==> final(self).pending()
                != old(self).pending(),
            final(self).pending() == old(self).pending() || exists|delay: u64, k: int|
                old(self).delay_min() <= delay <= old(self).delay_max() && #[trigger] queued_at(
                    old(self).pending(),
                    k,
                    (
                        VirtualTime((current_time.0 + delay * 1_000_000) as u64),
                        Message { from, to, data, sent_at: current_time },
                    ),
                    final(self).pending(),
                ),
            final(self).pending() != old(self).pending() ==> !old(self).blocks(from, to),
            old(self).blocks(from, to) ==> final(self).drop_draws() == old(self).drop_draws(),
            !old(self).blocks(from, to) ==> {
                &&& final(self).drop_draws().len() == old(self).drop_draws().len() + 1
                &&& final(self).drop_draws().drop_last() == old(self).drop_draws()
                &&& final(self).drop_draws().last() < DROP_DRAW_RANGE
                &&& (final(self).pending() == old(self).pending() <==> final(self).drop_draws().last()
                    < old(self).drop_threshold())
            },
    {
        if self.is_partitioned(from, to) {
            return;
        }
        let draw = std_rng_next_u64(&mut self.rng);
        assert(draw >> 11u64 < DROP_DRAW_RANGE) by (bit_vector);
        self.drop_draws = Ghost(self.drop_draws@.push(draw >> 11u64));
        assert(self.drop_draws@.drop_last() =~= old(self).drop_draws@);
        if (draw >> 11u64) < self.drop_threshold {
            return;
        }
        let delay_ms = std_rng_range_inclusive(&mut self.rng, self.delay_min_ms, self.delay_max_ms);
        assert(delay_ms * 1_000_000 <= self.delay_max_ms * 1_000_000) by (nonlinear_arith)
            requires
                delay_ms <= self.delay_max_ms,
        ;
        let deliver_at = VirtualTime(current_time.0 + delay_ms * 1_000_000);
        let msg = Message { from, to, data, sent_at: current_time };
        let ghost e = (deliver_at, msg);
        let ghost orig = self.pending_messages@;
        let mut pos: usize = 0;
        while pos < self.pending_messages.len() && self.pending_messages[pos].0.0 <= deliver_at.0
            invariant
                pos <= self.pending_messages@.len(),
                self.pending_messages@ == orig,
                forall|i: int| 0 <= i < pos ==> (#[trigger] orig[i]).0.0 <= deliver_at.0,
            decreases self.pending_messages@.len() - pos,
        {
            pos = pos + 1;
        }
        proof {
            assert forall|i: int| pos <= i < orig.len() implies (#[trigger] orig[i]).0.0
                > deliver_at.0 by {
                assert(orig[pos as int].0.0 <= orig[i].0.0);
            }
        }
        self.pending_messages.insert(pos, (deliver_at, msg));
        proof {
            let s = self.pending_messages@;
            assert(s == orig.insert(pos as int, e));
            assert(queued_at(orig, pos as int, e, s));
            assert(s.len() == orig.len() + 1);
            assert(s != orig);
            assert forall|i: int, j: int| 0 <= i <= j < s.len() implies (#[trigger] s[i]).0.0
                <= (#[trigger] s[j]).0.0 by {
                if j < pos {
                } else if j == pos {
                    if i < pos {
                        assert(s[i] == orig[i]);
                    }
                } else if i < pos {
                    assert(s[i] == orig[i]);
                    assert(s[j] == orig[j - 1]);
                } else if i == pos {
                    assert(s[j] == orig[j - 1]);
                } else {
                    assert(s[i] == orig[i - 1]);
                    assert(s[j] == orig[j - 1]);
                }
            }
        }
    }

    /// Takes out every message due at or before `current_time`, in delivery
    /// order, each paired with its recipient.
    pub fn deliver_ready(&mut self, current_time: VirtualTime) -> (ready: Vec<(NodeId, Message)>)
        requires
            old(self).wf(),
        ensures
            final(self).wf(),
            exists|k: int|
                #![trigger old(self).pending().take(k)]
                0 <= k <= old(self).pending().len() && final(self).pending() == old(
                    self,
                ).pending().skip(k) && ready@ == old(self).pending().take(k).map_values(
                    |e: (VirtualTime, Message)| delivery(e),
                ),
            forall|i: int|
                0 <= i < ready@.len() ==> (#[trigger] old(self).pending()[i]).0.0
                    <= current_time.0,
            forall|i: int|
                0 <= i < final(self).pending().len() ==> (#[trigger] final(self).pending()[i]).0.0
                    > current_time.0,
            final(self).partitions() == old(self).partitions(),
            final(self).drop_threshold() == old(self).drop_threshold(),
            final(self).delay_min() == old(self).delay_min(),
            final(self).delay_max() == old(self).delay_max(),
            final(self).next_id() == old(self).next_id(),
            final(self).drop_draws() == old(self).drop_draws(),
    {
        let ghost orig = self.pending_messages@;
        let mut k: usize = 0;
        while k < self.pending_messages.len() && self.pending_messages[k].0.0 <= current_time.0
            invariant
                k <= self.pending_messages@.len(),
                self.pending_messages@ == orig,
                forall|i: int| 0 <= i < k ==> (#[trigger] orig[i]).0.0 <= current_time.0,
            decreases self.pending_messages@.len() - k,
        {
            k = k + 1;
        }
        let mut due = self.pending_messages.split_off(k);
        std::mem::swap(&mut self.pending_messages, &mut due);
        assert(due@ == orig.take(k as int));
        assert(self.pending_messages@ == orig.skip(k as int));
        let mut ready: Vec<(NodeId, Message)> = Vec::new();
        let ghost due0 = due@;
        while due.len() > 0
            invariant
                ready@ + due@.map_values(|e: (VirtualTime, Message)| delivery(e)) == due0.map_values(
                    |e: (VirtualTime, Message)| delivery(e),
                ),
            decreases due@.len(),
        {
            let ghost before = due@;
            let (_t, m) = due.remove(0);
            assert(before =~= seq![before[0]] + due@);
            assert(before.map_values(|e: (VirtualTime, Message)| delivery(e)) =~= seq![
                delivery(before[0]),
            ] + due@.map_values(|e: (VirtualTime, Message)| delivery(e)));
            let to = m.to;
            ready.push((to, m));
        }
        assert(self.partitions() == old(self).partitions());
        proof {
            assert(due@.map_values(|e: (VirtualTime, Message)| delivery(e)) =~= Seq::<
                (NodeId, Message),
            >::empty());
            assert(ready@ =~= due0.map_values(|e: (VirtualTime, Message)| delivery(e)));
            let r = self.pending_messages@;
            assert forall|i: int| 0 <= i < r.len() implies (#[trigger] r[i]).0.0
                > current_time.0 by {
                assert(r[i] == orig[k + i]);
                assert(orig[k as int].0.0 <= orig[k + i].0.0);
            }
            assert forall|i: int, j: int| 0 <= i <= j < r.len() implies (#[trigger] r[i]).0.0
                <= (#[trigger] r[j]).0.0 by {
                assert(r[i] == orig[k + i]);
                assert(r[j] == orig[k + j]);
            }
        }
        ready
    }
}

/// Whether `v` holds `n`.
fn vec_contains(v: &Vec<NodeId>, n: NodeId) -> (b: bool)
    ensures
        b == v@.contains(n),
{
    let mut i: usize = 0;
    while i < v.len()
        invariant
            i <= v@.len(),
            forall|j: int| 0 <= j < i ==> v@[j] != n,
        decreases v@.len() - i,
    {
        if v[i].0 == n.0 {
            assert(v@[i as int] == n);
            return true;
        }
        i = i + 1;
    }
    false
}

/// Law: once a partition between two groups is added, messages between a
/// node of one group and a node of the other are cut off, both ways.
pub proof fn partition_cuts_both_ways(
    before: VirtualNetwork,
    after: VirtualNetwork,
    id: u64,
    nodes_a: Vec<NodeId>,
    nodes_b: Vec<NodeId>,
    a: NodeId,
    b: NodeId,
)
    requires
        after.partitions() == before.partitions().push(Partition { id, nodes_a, nodes_b }),
        nodes_a@.contains(a),
        nodes_b@.contains(b),
    ensures
        after.blocks(a, b),
        after.blocks(b, a),
{
    let k = before.partitions().len() as int;
    assert(separates(after.partitions()[k], a, b));
    assert(separates(after.partitions()[k], b, a));
}

/// Law: once the partitions with an id are removed, no partition with that
/// id remains, and every other partition is still there.
pub proof fn removed_partition_gone(before: VirtualNetwork, after: VirtualNetwork, id: u64)
    requires
        after.partitions() == before.partitions().filter(|p: Partition| p.id != id),
    ensures
        forall|i: int| 0 <= i < after.partitions().len() ==> (#[trigger] after.partitions()[i]).id != id,
        forall|i: int|
            0 <= i < before.partitions().len() && (#[trigger] before.partitions()[i]).id != id
                ==> after.partitions().contains(before.partitions()[i]),
{
    let f = |p: Partition| p.id != id;
    assert forall|i: int| 0 <= i < after.partitions().len() implies (#[trigger] after.partitions()[i]).id != id by {
        before.partitions().lemma_filter_pred(f, i);
    }
    assert forall|i: int|
        0 <= i < before.partitions().len() && (#[trigger] before.partitions()[i]).id != id
            implies after.partitions().contains(before.partitions()[i]) by {
        before.partitions().lemma_filter_contains(f, i);
    }
}

/// Law: a delivered message is never early, and what stays pending is not yet due.
pub proof fn delivery_respects_time(
    pending: Seq<(VirtualTime, Message)>,
    k: int,
    now: VirtualTime,
)
    requires
        by_delivery_time(pending),
        0 <= k <= pending.len(),
        forall|i: int| 0 <= i < k ==> (#[trigger] pending[i]).0.0 <= now.0,
        forall|i: int| k <= i < pending.len() ==> (#[trigger] pending[i]).0.0 > now.0,
    ensures
        forall|i: int, j: int| 0 <= i < k <= j < pending.len() ==> (#[trigger] pending[i]).0.0 < (#[trigger] pending[j]).0.0,
{
}

} // verus!
