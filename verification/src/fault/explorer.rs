//! Seed exploration: which seed to try next, coverage bookkeeping and
//! bisection for the smallest failing seed.

use vstd::prelude::*;
use std::time::Duration;
use crate::rng::thread_random_u64;
use crate::text::{decimal_chars, push_decimal, push_str};

verus! {

/// Strategy for exploring the state space of a distributed system.
#[derive(Debug, Clone)]
pub enum ExplorationStrategy {
    /// Purely random exploration.
    Random,
    /// Exploration guided by code coverage metrics.
    CoverageGuided,
    /// Exploration guided by specific heuristics or invariants.
    Guided,
}

/// How the next seed is chosen.
#[derive(Debug, Clone, Copy, PartialEq, Eq, Structural)]
pub enum ExploreStrategy {
    /// Try seeds in order from the start seed.
    Sequential,
    /// Random seeds.
    Random,
    /// In order, but jump ahead when the last run found nothing new.
    Coverage,
}

/// A (fault, pod) combination as text.
pub open spec fn combo_view(c: (String, String)) -> (Seq<char>, Seq<char>) {
    (c.0@, c.1@)
}

/// The jumps taken after a run that covered nothing new.
pub open spec fn coverage_offsets() -> Seq<u64> {
    seq![7u64, 13u64, 31u64, 97u64, 251u64]
}

/// Chooses seeds and records which (fault, pod) combinations were covered.
pub struct StrategicExplorer {
    pub strategy: ExploreStrategy,
    pub next_sequential: u64,
    pub seen_combinations: Vec<(String, String)>,
    pub coverage_offset: u64,
}

impl StrategicExplorer {
    /// The covered combinations, as text, in the order first seen.
    pub open spec fn seen(&self) -> Seq<(Seq<char>, Seq<char>)> {
        self.seen_combinations@.map_values(|c: (String, String)| combo_view(c))
    }

    /// No combination is recorded twice.
    pub open spec fn wf(&self) -> bool {
        self.seen().no_duplicates()
    }

    /// An explorer starting at `start_seed` with nothing covered.
    pub fn new(strategy: ExploreStrategy, start_seed: u64) -> (e: Self)
        ensures
            e.wf(),
            e.strategy == strategy,
            e.next_sequential == start_seed,
            e.seen_combinations@.len() == 0,
            e.coverage_offset == 0,
    {
        let e = StrategicExplorer {
            strategy,
            next_sequential: start_seed,
            seen_combinations: Vec::new(),
            coverage_offset: 0,
        };
        assert(e.seen() =~= Seq::<(Seq<char>, Seq<char>)>::empty());
        e
    }

    /// The next seed: the next in order (plus the current jump, for the
    /// coverage strategy), or a random one.
    pub fn next_seed(&mut self) -> (seed: u64)
        requires
            old(self).strategy != ExploreStrategy::Random ==> old(self).next_sequential < u64::MAX,
            old(self).strategy == ExploreStrategy::Coverage ==> old(self).next_sequential + old(
                self,
            ).coverage_offset <= u64::MAX,
        ensures
            final(self).strategy == old(self).strategy,
            final(self).seen_combinations == old(self).seen_combinations,
            final(self).coverage_offset == old(self).coverage_offset,
            old(self).strategy == ExploreStrategy::Sequential ==> seed == old(self).next_sequential
                && final(self).next_sequential == old(self).next_sequential + 1,
            old(self).strategy == ExploreStrategy::Coverage ==> seed == old(self).next_sequential
                + old(self).coverage_offset && final(self).next_sequential == old(
                self,
            ).next_sequential + 1,
            old(self).strategy == ExploreStrategy::Random ==> final(self).next_sequential == old(
                self,
            ).next_sequential,
    {
        match self.strategy {
            ExploreStrategy::Sequential => {
                let seed = self.next_sequential;
                self.next_sequential = self.next_sequential + 1;
                seed
            },
            ExploreStrategy::Random => thread_random_u64(),
            ExploreStrategy::Coverage => {
                let seed = self.next_sequential + self.coverage_offset;
                self.next_sequential = self.next_sequential + 1;
                seed
            },
        }
    }

    /// Records the combinations a run covered. Only the coverage strategy
    /// keeps them: it adds the new ones, and jumps ahead on the next seed
    /// (by 7, 13, 31, 97 or 251, picked by the next seed number) when none
    /// was new, or not at all when one was.
    pub fn record_coverage(&mut self, combinations: Vec<(String, String)>)
        requires
            old(self).wf(),
        ensures
            final(self).wf(),
            final(self).strategy == old(self).strategy,
            final(self).next_sequential == old(self).next_sequential,
            old(self).strategy != ExploreStrategy::Coverage ==> final(self).seen_combinations == old(
                self,
            ).seen_combinations && final(self).coverage_offset == old(self).coverage_offset,
            old(self).strategy == ExploreStrategy::Coverage ==> {
                &&& old(self).seen().is_prefix_of(final(self).seen())
                &&& forall|x: (Seq<char>, Seq<char>)|
                    #![trigger final(self).seen().contains(x)]
                    final(self).seen().contains(x) <==> (old(self).seen().contains(x) || exists|k: int|
                        0 <= k < combinations@.len() && combo_view(#[trigger] combinations@[k]) == x)
                &&& final(self).coverage_offset == if exists|k: int|
                    0 <= k < combinations@.len() && !old(self).seen().contains(
                        combo_view(#[trigger] combinations@[k]),
                    ) {
                    0
                } else {
                    coverage_offsets()[((old(self).next_sequential as usize) % 5) as int]
                }
            },
    {
        if self.strategy != ExploreStrategy::Coverage {
            return;
        }
        let ghost orig = self.seen();
        let mut new_coverage = false;
        let mut i: usize = 0;
        while i < combinations.len()
            invariant
                i <= combinations@.len(),
                self.strategy == ExploreStrategy::Coverage,
                self.next_sequential == old(self).next_sequential,
                self.coverage_offset == old(self).coverage_offset,
                orig == old(self).seen(),
                self.seen().no_duplicates(),
                orig.is_prefix_of(self.seen()),
                forall|x: (Seq<char>, Seq<char>)|
                    #![trigger self.seen().contains(x)]
                    self.seen().contains(x) <==> (orig.contains(x) || exists|k: int|
                        0 <= k < i && combo_view(#[trigger] combinations@[k]) == x),
                new_coverage == exists|k: int|
                    0 <= k < i && !orig.contains(combo_view(#[trigger] combinations@[k])),
            decreases combinations@.len() - i,
        {
            let ghost before = self.seen();
            let ghost cv = combo_view(combinations@[i as int]);
            let mut found = false;
            let mut j: usize = 0;
            while j < self.seen_combinations.len()
                invariant
                    j <= self.seen_combinations@.len(),
                    before == self.seen(),
                    i < combinations@.len(),
                    cv == combo_view(combinations@[i as int]),
                    found == exists|m: int| 0 <= m < j && self.seen()[m] == cv,
                decreases self.seen_combinations@.len() - j,
            {
                assert(self.seen()[j as int] == combo_view(self.seen_combinations@[j as int]));
                if self.seen_combinations[j].0 == combinations[i].0 && self.seen_combinations[j].1
                    == combinations[i].1 {
                    found = true;
                }
                j = j + 1;
            }
            assert(found == before.contains(cv));
            if !found {
                let c = (combinations[i].0.clone(), combinations[i].1.clone());
                assert(combo_view(c) == cv);
                self.seen_combinations.push(c);
                assert(self.seen() =~= before.push(cv));
                proof {
                    assert(!orig.contains(cv)) by {
                        if orig.contains(cv) {
                            let m = choose|m: int| 0 <= m < orig.len() && orig[m] == cv;
                            assert(before[m] == cv);
                        }
                    }
                    assert forall|a: int, b: int| 0 <= a < b < self.seen().len() implies self.seen()[a]
                        != self.seen()[b] by {
                        if b == before.len() {
                            assert(self.seen()[a] == before[a]);
                        } else {
                            assert(self.seen()[a] == before[a]);
                            assert(self.seen()[b] == before[b]);
                        }
                    }
                    assert forall|x: (Seq<char>, Seq<char>)| self.seen().contains(x) <==> (orig.contains(x)
                        || exists|k: int| 0 <= k < i + 1 && combo_view(#[trigger] combinations@[k]) == x) by {
                        if self.seen().contains(x) {
                            let m = choose|m: int| 0 <= m < self.seen().len() && self.seen()[m] == x;
                            if m < before.len() {
                                assert(before[m] == x);
                                assert(before.contains(x));
                            }
                        }
                        if before.contains(x) {
                            let m = choose|m: int| 0 <= m < before.len() && before[m] == x;
                            assert(self.seen()[m] == x);
                        }
                        if x == cv {
                            assert(self.seen()[before.len() as int] == x);
                        }
                        assert(combo_view(combinations@[i as int]) == cv);
                        if exists|k: int| 0 <= k < i + 1 && combo_view(#[trigger] combinations@[k]) == x {
                            let k = choose|k: int| 0 <= k < i + 1 && combo_view(#[trigger] combinations@[k]) == x;
                            if k < i {
                                assert(exists|k: int| 0 <= k < i && combo_view(#[trigger] combinations@[k]) == x);
                                assert(before.contains(x));
                            }
                        }
                    }
                    assert(orig.is_prefix_of(self.seen())) by {
                        assert forall|m: int| 0 <= m < orig.len() implies self.seen()[m] == orig[m] by {
                            assert(before[m] == orig[m]);
                        }
                    }
                }
                new_coverage = true;
            } else {
                proof {
                    assert(before.contains(cv));
                    if !orig.contains(cv) {
                        let k = choose|k: int| 0 <= k < i && combo_view(#[trigger] combinations@[k]) == cv;
                        assert(!orig.contains(combo_view(combinations@[k])));
                    }
                    assert(combo_view(combinations@[i as int]) == cv);
                    assert forall|x: (Seq<char>, Seq<char>)| self.seen().contains(x) <==> (orig.contains(x)
                        || exists|k: int| 0 <= k < i + 1 && combo_view(#[trigger] combinations@[k]) == x) by {
                        if x == cv {
                            assert(before.contains(x));
                        }
                        if exists|k: int| 0 <= k < i + 1 && combo_view(#[trigger] combinations@[k]) == x {
                            let k = choose|k: int| 0 <= k < i + 1 && combo_view(#[trigger] combinations@[k]) == x;
                            if k < i {
                                assert(exists|k: int| 0 <= k < i && combo_view(#[trigger] combinations@[k]) == x);
                            }
                        }
                    }
                }
            }
            assert(forall|x: (Seq<char>, Seq<char>)|
                #![trigger self.seen().contains(x)]
                self.seen().contains(x) <==> (orig.contains(x) || exists|k: int|
                    0 <= k < i + 1 && combo_view(#[trigger] combinations@[k]) == x));
            i = i + 1;
        }
        if !new_coverage {
            let offsets: [u64; 5] = [7, 13, 31, 97, 251];
            assert(offsets@ =~= coverage_offsets());
            self.coverage_offset = offsets[(self.next_sequential as usize) % 5];
        } else {
            self.coverage_offset = 0;
        }
    }

    /// A summary line with the number of combinations covered.
    pub fn coverage_summary(&self) -> (s: String)
        ensures
            s@ == "Coverage: "@ + decimal_chars(self.seen_combinations@.len()) + " unique (fault×pod) combinations tested"@,
    {
        let mut s = String::new();
        push_str(&mut s, "Coverage: ");
        push_decimal(&mut s, self.seen_combinations.len() as u64);
        push_str(&mut s, " unique (fault×pod) combinations tested");
        s
    }
}

/// Whether `runner` passes exactly the seeds below `threshold`.
pub open spec fn passes_below<F: Fn(u64) -> bool>(runner: F, threshold: u64) -> bool {
    forall|s: u64, b: bool| call_ensures(runner, (s,), b) ==> b == (s < threshold)
}

/// What the seed bisection finds when the runner passes exactly the seeds
/// below `threshold`: the threshold itself, kept within `good..=bad`.
pub open spec fn bisect_expected(good: u64, bad: u64, threshold: u64) -> u64 {
    if threshold < good {
        good
    } else if threshold > bad {
        bad
    } else {
        threshold
    }
}

/// The number of times an interval of `n` seeds can be halved before it is
/// down to one seed: `floor(log2(n))` for `n >= 1`, and 0 for `n == 0`.
pub open spec fn floor_log2(n: nat) -> nat
    decreases n,
{
    if n <= 1 {
        0
    } else {
        1 + floor_log2(n / 2)
    }
}

/// The most runner calls a bisection over `good..=bad` makes:
/// `floor(log2(bad - good + 1)) + 1`, and none when the interval is empty.
pub open spec fn bisect_call_bound(good: u64, bad: u64) -> nat {
    if good <= bad {
        floor_log2((bad - good + 1) as nat) + 1
    } else {
        0
    }
}

proof fn floor_log2_monotone(a: nat, b: nat)
    requires
        a <= b,
    ensures
        floor_log2(a) <= floor_log2(b),
    decreases b,
{
    if a > 1 {
        floor_log2_monotone(a / 2, b / 2);
    }
}

/// Binary search for the smallest failing seed between `good` and `bad`,
/// calling `runner` (true when a seed passes) on the midpoints, and the
/// seeds it was called with, in order, each with the runner's answer.
///
/// Every seed handed to `runner` lies in `good..=bad` (its `requires` asks
/// no more), and there are at most `floor(log2(bad - good + 1)) + 1` calls.
pub fn bisect_seed_probes<F: Fn(u64) -> bool>(good: u64, bad: u64, runner: F) -> (res: (
    u64,
    Vec<(u64, bool)>,
))
    requires
        forall|s: u64| good <= s <= bad ==> #[trigger] runner.requires((s,)),
        bad < u64::MAX || forall|b: bool| call_ensures(runner, (u64::MAX,), b) ==> !b,
    ensures
        res.1@.len() <= bisect_call_bound(good, bad),
        forall|i: int|
            0 <= i < res.1@.len() ==> good <= (#[trigger] res.1@[i]).0 <= bad && call_ensures(
                runner,
                (res.1@[i].0,),
                res.1@[i].1,
            ),
        res.0 == bad || call_ensures(runner, (res.0,), false),
        good <= bad ==> good <= res.0 <= bad,
        forall|t: u64|
            good <= bad && #[trigger] passes_below(runner, t) ==> res.0 == bisect_expected(
                good,
                bad,
                t,
            ),
{
    let mut probes: Vec<(u64, bool)> = Vec::new();
    if good > bad {
        return (bad, probes);
    }
    let mut low = good;
    let mut high = bad;
    let mut min_failing = bad;
    let ghost total: nat = (bad - good + 1) as nat;
    while low <= high
        invariant
            forall|s: u64| good <= s <= bad ==> #[trigger] runner.requires((s,)),
            bad < u64::MAX || forall|b: bool| call_ensures(runner, (u64::MAX,), b) ==> !b,
            good <= bad,
            good <= low,
            high <= bad,
            low <= high + 1,
            total == bad - good + 1,
            low <= high ==> probes@.len() + floor_log2((high + 1 - low) as nat) <= floor_log2(
                total,
            ),
            low > high ==> probes@.len() <= floor_log2(total) + 1,
            forall|i: int|
                0 <= i < probes@.len() ==> good <= (#[trigger] probes@[i]).0 <= bad
                    && call_ensures(runner, (probes@[i].0,), probes@[i].1),
            min_failing == (if high < bad {
                (high + 1) as u64
            } else {
                bad
            }),
            min_failing == bad || call_ensures(runner, (min_failing,), false),
            forall|t: u64|
                #[trigger] passes_below(runner, t) ==> (low > good ==> low <= t) && (high < bad
                    ==> t <= high + 1),
        decreases high + 1 - low,
    {
        let ghost size: nat = (high + 1 - low) as nat;
        let mid = low + (high - low) / 2;
        let passes = runner(mid);
        probes.push((mid, passes));
        if passes {
            if mid == u64::MAX {
                assert(false);
            }
            low = mid + 1;
        } else {
            min_failing = mid;
            if mid == 0 {
                return (min_failing, probes);
            }
            high = mid - 1;
        }
        proof {
            if low <= high {
                let next: nat = (high + 1 - low) as nat;
                assert(next <= size / 2);
                floor_log2_monotone(next, size / 2);
                assert(size >= 2);
            }
        }
    }
    (min_failing, probes)
}

/// Binary search for the smallest failing seed between `good` and `bad`,
/// calling `runner` (true when a seed passes) on the midpoints. The result
/// is `bad` or a seed on which the runner failed; when the runner passes
/// exactly the seeds below some threshold, it is that threshold kept within
/// `good..=bad`. The calls are those that `bisect_seed_probes` lists: at
/// most `floor(log2(bad - good + 1)) + 1`, each on a seed in `good..=bad`.
pub fn bisect_seed<F: Fn(u64) -> bool>(good: u64, bad: u64, runner: F) -> (r: u64)
    requires
        forall|s: u64| good <= s <= bad ==> #[trigger] runner.requires((s,)),
        bad < u64::MAX || forall|b: bool| call_ensures(runner, (u64::MAX,), b) ==> !b,
    ensures
        r == bad || call_ensures(runner, (r,), false),
        good <= bad ==> good <= r <= bad,
        forall|t: u64|
            good <= bad && #[trigger] passes_below(runner, t) ==> r == bisect_expected(good, bad, t),
{
    bisect_seed_probes(good, bad, runner).0
}

/// The result of running a simulation with a specific seed.
#[derive(Debug, Clone)]
pub struct ExplorationResult {
    pub seed: u64,
    pub coverage_edges_hit: usize,
    pub properties_violated: usize,
    pub duration: Duration,
}

/// Explores the state space by generating seeds, running simulations and
/// using their coverage to steer.
pub struct Explorer {
    pub strategy: ExplorationStrategy,
    pub coverage_bitmap: Vec<u8>,
    pub iteration_count: usize,
    pub best_seeds: Vec<u64>,
}

impl Explorer {
    /// An explorer with an empty 64 KiB coverage bitmap.
    pub fn new(strategy: ExplorationStrategy) -> (e: Self)
        ensures
            e.strategy == strategy,
            e.coverage_bitmap@ == Seq::new(65536, |i: int| 0u8),
            e.iteration_count == 0,
            e.best_seeds@.len() == 0,
    {
        let bitmap = vec![0u8; 65536];
        assert(bitmap@ =~= Seq::new(65536, |i: int| 0u8));
        Explorer { strategy, coverage_bitmap: bitmap, iteration_count: 0, best_seeds: Vec::new() }
    }
}

} // verus!
