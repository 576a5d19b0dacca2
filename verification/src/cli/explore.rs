//! Seed exploration over simulated runs: the (fault, pod) pairs a timeline
//! covers, which seeds are worth a second look, and the bisection from a
//! failing seed down to the smallest failing one.

use vstd::prelude::*;
use crate::cli::dst_run::{DstEvent, DstEventKind};
use crate::fault::explorer::{bisect_expected, combo_view};
use crate::text::same_str;

verus! {

/// The (fault kind, target pod) pair of an injection event.
pub open spec fn injected_pair(e: DstEvent) -> Option<(Seq<char>, Seq<char>)> {
    match e.kind {
        DstEventKind::FaultInjected { fault_kind, target, .. } => Some((fault_kind@, target@)),
        _ => None,
    }
}

/// Some pair of `r` reads `x`.
pub open spec fn lists_pair(r: Seq<(String, String)>, x: (Seq<char>, Seq<char>)) -> bool {
    exists|k: int| 0 <= k < r.len() && combo_view(#[trigger] r[k]) == x
}

/// Some event of `events` injected the pair `x`.
pub open spec fn injects_pair(events: Seq<DstEvent>, x: (Seq<char>, Seq<char>)) -> bool {
    exists|i: int| 0 <= i < events.len() && injected_pair(#[trigger] events[i]) == Some(x)
}

/// The (fault kind, target pod) pairs injected in a timeline, each once, in
/// the order first injected.
pub fn fault_target_combos(events: &[DstEvent]) -> (r: Vec<(String, String)>)
    ensures
        forall|x: (Seq<char>, Seq<char>)| lists_pair(r@, x) <==> injects_pair(events@, x),
        forall|a: int, b: int|
            0 <= a < b < r@.len() ==> combo_view(#[trigger] r@[a]) != combo_view(#[trigger] r@[b]),
{
    let mut r: Vec<(String, String)> = Vec::new();
    let mut i: usize = 0;
    while i < events.len()
        invariant
            i <= events@.len(),
            forall|x: (Seq<char>, Seq<char>)| lists_pair(r@, x) <==> injects_pair(events@.take(i as int), x),
            forall|a: int, b: int|
                0 <= a < b < r@.len() ==> combo_view(#[trigger] r@[a]) != combo_view(#[trigger] r@[b]),
        decreases events@.len() - i,
    {
        let ghost before = r@;
        let ghost seen = events@.take(i as int);
        let ghost next = events@.take(i + 1);
        proof {
            assert forall|x: (Seq<char>, Seq<char>)| injects_pair(next, x) <==> (injects_pair(seen, x)
                || injected_pair(events@[i as int]) == Some(x)) by {
                if injects_pair(next, x) {
                    let j = choose|j: int| 0 <= j < next.len() && injected_pair(#[trigger] next[j]) == Some(x);
                    if j < i {
                        assert(seen[j] == next[j]);
                    }
                }
                if injects_pair(seen, x) {
                    let j = choose|j: int| 0 <= j < seen.len() && injected_pair(#[trigger] seen[j]) == Some(x);
                    assert(next[j] == seen[j]);
                }
                if injected_pair(events@[i as int]) == Some(x) {
                    assert(next[i as int] == events@[i as int]);
                }
            }
        }
        match &events[i].kind {
            DstEventKind::FaultInjected { fault_kind, target, .. } => {
                assert(injected_pair(events@[i as int]) == Some((fault_kind@, target@)));
                let mut k: usize = 0;
                let mut found = false;
                while k < r.len()
                    invariant
                        k <= r@.len(),
                        r@ == before,
                        !found ==> forall|j: int| 0 <= j < k ==> combo_view(#[trigger] r@[j]) != (fault_kind@, target@),
                        found ==> lists_pair(r@, (fault_kind@, target@)),
                    decreases r@.len() - k,
                {
                    if same_str(r[k].0.as_str(), fault_kind.as_str()) && same_str(r[k].1.as_str(), target.as_str()) {
                        assert(combo_view(r@[k as int]) == (fault_kind@, target@));
                        found = true;
                    }
                    k = k + 1;
                }
                if found {
                    assert(r@ == before);
                } else {
                    r.push((fault_kind.clone(), target.clone()));
                    proof {
                        assert(r@ == before.push(r@[before.len() as int]));
                        assert(combo_view(r@[before.len() as int]) == (fault_kind@, target@));
                        assert forall|x: (Seq<char>, Seq<char>)| lists_pair(r@, x) <==> (lists_pair(before, x) || x == (fault_kind@, target@)) by {
                            if lists_pair(r@, x) {
                                let j = choose|j: int| 0 <= j < r@.len() && combo_view(#[trigger] r@[j]) == x;
                                if j < before.len() {
                                    assert(r@[j] == before[j]);
                                }
                            }
                            if lists_pair(before, x) {
                                let j = choose|j: int| 0 <= j < before.len() && combo_view(#[trigger] before[j]) == x;
                                assert(r@[j] == before[j]);
                            }
                        }
                        assert forall|a: int, b: int| 0 <= a < b < r@.len() implies combo_view(#[trigger] r@[a]) != combo_view(#[trigger] r@[b]) by {
                            if b < before.len() {
                                assert(r@[a] == before[a] && r@[b] == before[b]);
                            } else {
                                assert(r@[a] == before[a]);
                            }
                        }
                    }
                }
            },
            _ => {
                assert(injected_pair(events@[i as int]) is None);
            },
        }
        proof {
            assert forall|x: (Seq<char>, Seq<char>)| lists_pair(r@, x) <==> injects_pair(next, x) by {
                assert(lists_pair(before, x) <==> injects_pair(seen, x));
                assert(injects_pair(next, x) <==> (injects_pair(seen, x) || injected_pair(events@[i as int]) == Some(x)));
                match injected_pair(events@[i as int]) {
                    Some(p) => {
                        assert(lists_pair(before, p) ==> r@ == before);
                        assert(lists_pair(r@, p));
                        if lists_pair(r@, x) && x != p && r@ != before {
                            assert(lists_pair(before, x));
                        }
                        if lists_pair(before, x) && r@ != before {
                            assert(lists_pair(r@, x));
                        }
                    },
                    None => {
                        assert(r@ == before);
                    },
                }
            }
        }
        i = i + 1;
    }
    assert(events@.take(events@.len() as int) =~= events@);
    r
}

/// The outcome of probing seeds so far: the seeds whose run failed somewhere,
/// in order, and the last seed whose run was clean.
#[derive(Debug, Clone)]
pub struct SeedTriage {
    pub interesting: Vec<u64>,
    pub last_known_good: Option<u64>,
}

impl SeedTriage {
    /// Nothing probed yet.
    pub fn new() -> (t: Self)
        ensures
            t.interesting@.len() == 0,
            t.last_known_good is None,
    {
        SeedTriage { interesting: Vec::new(), last_known_good: None }
    }

    /// Records the run of `seed`: an interesting seed when it failed, else
    /// the last known good one.
    pub fn record(&mut self, seed: u64, failed: bool)
        ensures
            failed ==> final(self).interesting@ == old(self).interesting@.push(seed)
                && final(self).last_known_good == old(self).last_known_good,
            !failed ==> final(self).interesting@ == old(self).interesting@ && final(self).last_known_good
                == Some(seed),
    {
        if failed {
            self.interesting.push(seed);
        } else {
            self.last_known_good = Some(seed);
        }
    }
}

/// `runner` fails exactly the seeds from `threshold` on, and never errs.
pub open spec fn fails_from<F: Fn(u64) -> Option<bool>>(runner: F, threshold: u64) -> bool {
    forall|s: u64, o: Option<bool>| call_ensures(runner, (s,), o) ==> o == Some(s >= threshold)
}

/// Bisects from the failing seed `failing` down towards the good seed
/// `good` for the smallest failing seed: `runner` tells whether a seed's run
/// fails (`None` when it could not be run, which counts as failing without
/// being reported). The result is `failing` or a seed the runner reported
/// failing, between `good` and `failing`; when the runner fails exactly the
/// seeds from some threshold on, it is that threshold kept within
/// `good..=failing`.
pub fn bisect_failing_seed<F: Fn(u64) -> Option<bool>>(good: u64, failing: u64, runner: &F) -> (r: u64)
    requires
        good < failing,
        forall|s: u64| #[trigger] runner.requires((s,)),
    ensures
        good <= r <= failing,
        r == failing || call_ensures(*runner, (r,), Some(true)),
        forall|t: u64| #[trigger] fails_from(*runner, t) ==> r == bisect_expected(good, failing, t),
{
    let mut low = good;
    let mut high = failing;
    let mut nearest_failing = failing;
    while low < high
        invariant
            forall|s: u64| #[trigger] runner.requires((s,)),
            good <= low <= high <= failing,
            high <= nearest_failing <= failing,
            good <= nearest_failing,
            nearest_failing == failing || call_ensures(*runner, (nearest_failing,), Some(true)),
            forall|t: u64|
                #[trigger] fails_from(*runner, t) ==> low <= bisect_expected(good, failing, t) <= high
                    && nearest_failing == high,
        decreases high - low,
    {
        let mid = low + (high - low) / 2;
        match runner(mid) {
            Some(true) => {
                nearest_failing = mid;
                high = mid;
            },
            Some(false) => {
                low = mid + 1;
            },
            None => {
                high = mid;
            },
        }
    }
    nearest_failing
}

/// The seeds of `s` are strictly increasing.
pub open spec fn strictly_increasing(s: Seq<u64>) -> bool {
    forall|i: int, j: int| 0 <= i < j < s.len() ==> s[i] < s[j]
}

/// Adds `x` to a strictly increasing list of seeds, unless it is there.
fn insert_unique(v: &mut Vec<u64>, x: u64)
    requires
        strictly_increasing(old(v)@),
    ensures
        strictly_increasing(final(v)@),
        forall|y: u64| final(v)@.contains(y) <==> (old(v)@.contains(y) || y == x),
{
    let ghost s = v@;
    let mut pos: usize = 0;
    while pos < v.len() && v[pos] < x
        invariant
            v@ == s,
            pos <= s.len(),
            forall|i: int| 0 <= i < pos ==> s[i] < x,
        decreases s.len() - pos,
    {
        pos = pos + 1;
    }
    if pos < v.len() && v[pos] == x {
        return;
    }
    v.insert(pos, x);
    proof {
        let r = v@;
        assert(r == s.insert(pos as int, x));
        assert forall|y: u64| r.contains(y) <==> (s.contains(y) || y == x) by {
            if r.contains(y) {
                let j = choose|j: int| 0 <= j < r.len() && r[j] == y;
                if j < pos {
                    assert(s[j] == y);
                } else if j > pos {
                    assert(s[j - 1] == y);
                }
            }
            if s.contains(y) {
                let j = choose|j: int| 0 <= j < s.len() && s[j] == y;
                if j < pos {
                    assert(r[j] == y);
                } else {
                    assert(r[j + 1] == y);
                }
            }
            if y == x {
                assert(r[pos as int] == x);
            }
        }
    }
}

/// Where the bisection of `failing` lands for a runner failing from
/// `threshold` on: `failing` itself when `good` is not below it.
pub open spec fn bisected_seed(good: u64, failing: u64, threshold: u64) -> u64 {
    if good >= failing {
        failing
    } else {
        bisect_expected(good, failing, threshold)
    }
}

/// Bisects every interesting seed against the last known good seed (0 when
/// none), in order, keeping a seed as it is when the good seed is not below
/// it. Each result is its interesting seed or one the runner reported
/// failing, no smaller than the good seed; when the runner fails exactly the
/// seeds from some threshold on, each is the bisected seed of its interesting
/// one.
pub fn bisect_interesting_seeds<F: Fn(u64) -> Option<bool>>(
    interesting: &[u64],
    last_known_good: Option<u64>,
    runner: &F,
) -> (r: Vec<u64>)
    requires
        forall|s: u64| #[trigger] runner.requires((s,)),
    ensures
        r@.len() == interesting@.len(),
        forall|i: int|
            0 <= i < r@.len() ==> {
                let good = match last_known_good {
                    Some(g) => g,
                    None => 0,
                };
                &&& (#[trigger] r@[i] == interesting@[i] || call_ensures(*runner, (r@[i],), Some(true)))
                &&& (good < interesting@[i] ==> good <= r@[i] <= interesting@[i])
                &&& (good >= interesting@[i] ==> r@[i] == interesting@[i])
            },
        forall|t: u64|
            #[trigger] fails_from(*runner, t) ==> forall|i: int|
                0 <= i < r@.len() ==> #[trigger] r@[i] == bisected_seed(
                    match last_known_good {
                        Some(g) => g,
                        None => 0,
                    },
                    interesting@[i],
                    t,
                ),
{
    let good = match last_known_good {
        Some(g) => g,
        None => 0,
    };
    let mut r: Vec<u64> = Vec::new();
    let mut i: usize = 0;
    while i < interesting.len()
        invariant
            forall|s: u64| #[trigger] runner.requires((s,)),
            i <= interesting@.len(),
            r@.len() == i,
            good == match last_known_good {
                Some(g) => g,
                None => 0,
            },
            forall|k: int|
                0 <= k < i ==> {
                    &&& (#[trigger] r@[k] == interesting@[k] || call_ensures(*runner, (r@[k],), Some(true)))
                    &&& (good < interesting@[k] ==> good <= r@[k] <= interesting@[k])
                    &&& (good >= interesting@[k] ==> r@[k] == interesting@[k])
                },
            forall|t: u64|
                #[trigger] fails_from(*runner, t) ==> forall|k: int|
                    0 <= k < i ==> #[trigger] r@[k] == bisected_seed(good, interesting@[k], t),
        decreases interesting@.len() - i,
    {
        let failing = interesting[i];
        let found = if good >= failing {
            failing
        } else {
            bisect_failing_seed(good, failing, runner)
        };
        r.push(found);
        i = i + 1;
    }
    r
}

/// The distinct seeds of `seeds`, in increasing order.
pub fn distinct_sorted(seeds: &[u64]) -> (r: Vec<u64>)
    ensures
        strictly_increasing(r@),
        forall|y: u64| r@.contains(y) <==> seeds@.contains(y),
{
    let mut r: Vec<u64> = Vec::new();
    let mut i: usize = 0;
    while i < seeds.len()
        invariant
            i <= seeds@.len(),
            strictly_increasing(r@),
            forall|y: u64| r@.contains(y) <==> seeds@.take(i as int).contains(y),
        decreases seeds@.len() - i,
    {
        let ghost before = r@;
        insert_unique(&mut r, seeds[i]);
        proof {
            let t = seeds@.take(i + 1);
            assert(t =~= seeds@.take(i as int).push(seeds@[i as int]));
            assert forall|y: u64| r@.contains(y) <==> t.contains(y) by {
                assert(before.contains(y) <==> seeds@.take(i as int).contains(y));
                if y == seeds@[i as int] {
                    assert(t[i as int] == y);
                }
                if t.contains(y) {
                    let j = choose|j: int| 0 <= j < t.len() && t[j] == y;
                    if j < i {
                        assert(seeds@.take(i as int)[j] == y);
                    }
                }
                if seeds@.take(i as int).contains(y) {
                    let j = choose|j: int| 0 <= j < i && seeds@.take(i as int)[j] == y;
                    assert(t[j] == y);
                }
            }
        }
        i = i + 1;
    }
    assert(seeds@.take(seeds@.len() as int) =~= seeds@);
    r
}

} // verus!
