//! Comparing the timelines of two simulated runs: at each instant, the
//! faults injected in one run and not in the other, and the probes whose
//! outcome differs.

use vstd::prelude::*;
use crate::cli::dst_run::{DstEvent, DstEventKind};
use crate::cli::explore::{distinct_sorted, strictly_increasing};
use crate::text::{chars_of, push_str, same_str};
use crate::types::VirtualTime;

verus! {

/// The order of texts (that of `String`): at the first character where they
/// differ the smaller code point comes first, and a proper prefix comes
/// before the longer text.
pub open spec fn text_before(a: Seq<char>, b: Seq<char>) -> bool {
    ||| exists|k: int|
        #![trigger a[k], b[k]]
        0 <= k < a.len() && k < b.len() && a.take(k) == b.take(k) && (a[k] as u32) < (b[k] as u32)
    ||| (a.len() < b.len() && b.take(a.len() as int) == a)
}

/// The text order is transitive.
pub proof fn lemma_text_before_transitive(a: Seq<char>, b: Seq<char>, c: Seq<char>)
    requires
        text_before(a, b),
        text_before(b, c),
    ensures
        text_before(a, c),
{
    let ab_diff = exists|k: int|
        #![trigger a[k], b[k]]
        0 <= k < a.len() && k < b.len() && a.take(k) == b.take(k) && (a[k] as u32) < (b[k] as u32);
    let bc_diff = exists|k: int|
        #![trigger b[k], c[k]]
        0 <= k < b.len() && k < c.len() && b.take(k) == c.take(k) && (b[k] as u32) < (c[k] as u32);
    if ab_diff {
        let k1 = choose|k: int|
            #![trigger a[k], b[k]]
            0 <= k < a.len() && k < b.len() && a.take(k) == b.take(k) && (a[k] as u32) < (b[k] as u32);
        if bc_diff {
            let k2 = choose|k: int|
                #![trigger b[k], c[k]]
                0 <= k < b.len() && k < c.len() && b.take(k) == c.take(k) && (b[k] as u32) < (c[k] as u32);
            let k = if k1 <= k2 { k1 } else { k2 };
            assert(a.take(k) =~= c.take(k)) by {
                assert forall|j: int| 0 <= j < k implies #[trigger] a.take(k)[j] == c.take(k)[j] by {
                    assert(a.take(k1)[j] == b.take(k1)[j]);
                    assert(b.take(k2)[j] == c.take(k2)[j]);
                }
            }
            if k1 < k2 {
                assert(b.take(k2)[k1] == c.take(k2)[k1]);
            } else if k2 < k1 {
                assert(a.take(k1)[k2] == b.take(k1)[k2]);
            }
            assert(0 <= k < a.len() && k < c.len() && a.take(k) == c.take(k) && (a[k] as u32) < (c[k] as u32));
        } else {
            assert(b.len() < c.len() && c.take(b.len() as int) == b);
            assert(c.take(b.len() as int)[k1] == c[k1]);
            assert(a.take(k1) =~= c.take(k1)) by {
                assert forall|j: int| 0 <= j < k1 implies #[trigger] a.take(k1)[j] == c.take(k1)[j] by {
                    assert(a.take(k1)[j] == b.take(k1)[j]);
                    assert(c.take(b.len() as int)[j] == c[j]);
                }
            }
            assert(0 <= k1 < a.len() && k1 < c.len() && a.take(k1) == c.take(k1) && (a[k1] as u32) < (c[k1] as u32));
        }
    } else {
        assert(a.len() < b.len() && b.take(a.len() as int) == a);
        if bc_diff {
            let k2 = choose|k: int|
                #![trigger b[k], c[k]]
                0 <= k < b.len() && k < c.len() && b.take(k) == c.take(k) && (b[k] as u32) < (c[k] as u32);
            if k2 < a.len() {
                assert(b.take(a.len() as int)[k2] == b[k2]);
                assert(a.take(k2) =~= c.take(k2)) by {
                    assert forall|j: int| 0 <= j < k2 implies #[trigger] a.take(k2)[j] == c.take(k2)[j] by {
                        assert(b.take(a.len() as int)[j] == b[j]);
                        assert(b.take(k2)[j] == c.take(k2)[j]);
                    }
                }
                assert(0 <= k2 < a.len() && k2 < c.len() && a.take(k2) == c.take(k2) && (a[k2] as u32) < (c[k2] as u32));
            } else {
                assert(c.take(a.len() as int) =~= a) by {
                    assert forall|j: int| 0 <= j < a.len() implies #[trigger] c.take(a.len() as int)[j] == a[j] by {
                        assert(b.take(a.len() as int)[j] == b[j]);
                        assert(b.take(k2)[j] == c.take(k2)[j]);
                    }
                }
            }
        } else {
            assert(b.len() < c.len() && c.take(b.len() as int) == b);
            assert(c.take(a.len() as int) =~= a) by {
                assert forall|j: int| 0 <= j < a.len() implies #[trigger] c.take(a.len() as int)[j] == a[j] by {
                    assert(b.take(a.len() as int)[j] == b[j]);
                    assert(c.take(b.len() as int)[j] == c[j]);
                }
            }
        }
    }
}

/// No text comes before itself, nor before a text that comes before it.
pub proof fn lemma_text_before_asymmetric(a: Seq<char>, b: Seq<char>)
    requires
        text_before(a, b),
    ensures
        !text_before(b, a),
        a != b,
{
    if text_before(b, a) {
        lemma_text_before_transitive(a, b, a);
        if exists|k: int|
            #![trigger a[k], a[k]]
            0 <= k < a.len() && k < a.len() && a.take(k) == a.take(k) && (a[k] as u32) < (a[k] as u32) {
            let k = choose|k: int|
                #![trigger a[k], a[k]]
                0 <= k < a.len() && k < a.len() && a.take(k) == a.take(k) && (a[k] as u32) < (a[k] as u32);
            assert(false);
        }
    }
    if a == b {
        if exists|k: int|
            #![trigger a[k], b[k]]
            0 <= k < a.len() && k < b.len() && a.take(k) == b.take(k) && (a[k] as u32) < (b[k] as u32) {
            let k = choose|k: int|
                #![trigger a[k], b[k]]
                0 <= k < a.len() && k < b.len() && a.take(k) == b.take(k) && (a[k] as u32) < (b[k] as u32);
            assert(false);
        }
    }
}

/// How two texts compare.
#[derive(Debug, Clone, Copy, PartialEq, Eq, Structural)]
pub enum TextOrder {
    Before,
    Same,
    After,
}

/// Compares two texts, given as characters.
pub fn compare_texts(a: &[char], b: &[char]) -> (r: TextOrder)
    ensures
        r == TextOrder::Before <==> text_before(a@, b@),
        r == TextOrder::Same <==> a@ == b@,
        r == TextOrder::After <==> text_before(b@, a@),
{
    let mut i: usize = 0;
    while i < a.len() && i < b.len()
        invariant
            i <= a@.len(),
            i <= b@.len(),
            a@.take(i as int) == b@.take(i as int),
        decreases a@.len() - i,
    {
        if (a[i] as u32) < (b[i] as u32) {
            assert(0 <= i < a@.len() && i < b@.len() && a@.take(i as int) == b@.take(i as int)
                && (a@[i as int] as u32) < (b@[i as int] as u32));
            proof {
                lemma_text_before_asymmetric(a@, b@);
            }
            return TextOrder::Before;
        }
        if (b[i] as u32) < (a[i] as u32) {
            assert(0 <= i < b@.len() && i < a@.len() && b@.take(i as int) == a@.take(i as int)
                && (b@[i as int] as u32) < (a@[i as int] as u32));
            proof {
                lemma_text_before_asymmetric(b@, a@);
            }
            return TextOrder::After;
        }
        proof {
            vstd::utf8::char_u32_cast(a@[i as int], a@[i as int] as u32);
            vstd::utf8::char_u32_cast(b@[i as int], b@[i as int] as u32);
        }
        assert(a@[i as int] == b@[i as int]);
        assert(a@.take(i + 1) =~= b@.take(i + 1)) by {
            assert forall|j: int| 0 <= j < i + 1 implies #[trigger] a@.take(i + 1)[j] == b@.take(i + 1)[j] by {
                if j < i {
                    assert(a@.take(i as int)[j] == b@.take(i as int)[j]);
                }
            }
        }
        i = i + 1;
    }
    if a.len() < b.len() {
        assert(a@.take(i as int) =~= a@);
        proof {
            lemma_text_before_asymmetric(a@, b@);
        }
        TextOrder::Before
    } else if b.len() < a.len() {
        assert(b@.take(i as int) =~= b@);
        proof {
            lemma_text_before_asymmetric(b@, a@);
        }
        TextOrder::After
    } else {
        assert(a@.take(i as int) =~= a@);
        assert(b@.take(i as int) =~= b@);
        proof {
            if text_before(a@, b@) {
                lemma_text_before_asymmetric(a@, b@);
            }
            if text_before(b@, a@) {
                lemma_text_before_asymmetric(b@, a@);
            }
        }
        TextOrder::Same
    }
}

/// The text of each string.
pub open spec fn texts_of(v: Seq<String>) -> Seq<Seq<char>> {
    v.map_values(|s: String| s@)
}

/// How often `x` occurs in `s`.
pub open spec fn count_of(s: Seq<Seq<char>>, x: Seq<char>) -> nat
    decreases s.len(),
{
    if s.len() == 0 {
        0
    } else {
        count_of(s.drop_last(), x) + if s.last() == x {
            1nat
        } else {
            0nat
        }
    }
}

/// The texts are in order, equal ones side by side.
pub open spec fn texts_sorted(s: Seq<Seq<char>>) -> bool {
    forall|i: int, j: int| 0 <= i < j < s.len() ==> !text_before(#[trigger] s[j], #[trigger] s[i])
}

/// Counting in a sequence with one more element inserted.
proof fn lemma_count_insert(s: Seq<Seq<char>>, k: int, t: Seq<char>, x: Seq<char>)
    requires
        0 <= k <= s.len(),
    ensures
        count_of(s.insert(k, t), x) == count_of(s, x) + if t == x {
            1nat
        } else {
            0nat
        },
    decreases s.len(),
{
    if k == s.len() {
        assert(s.insert(k, t).drop_last() =~= s);
    } else {
        lemma_count_insert(s.drop_last(), k, t, x);
        assert(s.insert(k, t).drop_last() =~= s.drop_last().insert(k, t));
    }
}

/// Inserts `x` among sorted strings, after those it does not come before.
fn insert_text_sorted(v: &mut Vec<String>, x: String)
    requires
        texts_sorted(texts_of(old(v)@)),
    ensures
        texts_sorted(texts_of(final(v)@)),
        exists|k: int| 0 <= k <= old(v)@.len() && texts_of(final(v)@) == texts_of(old(v)@).insert(k, x@),
{
    let ghost s = texts_of(v@);
    let xc = chars_of(x.as_str());
    let mut pos: usize = 0;
    while pos < v.len()
        invariant
            texts_of(v@) == s,
            v@.len() == s.len(),
            texts_sorted(s),
            pos <= s.len(),
            xc@ == x@,
            forall|i: int| 0 <= i < pos ==> !text_before(x@, #[trigger] s[i]),
        ensures
            pos <= s.len(),
            forall|i: int| 0 <= i < pos ==> !text_before(x@, #[trigger] s[i]),
            pos < s.len() ==> text_before(x@, s[pos as int]),
        decreases s.len() - pos,
    {
        let yc = chars_of(v[pos].as_str());
        assert(yc@ == s[pos as int]);
        if compare_texts(xc.as_slice(), yc.as_slice()) == TextOrder::Before {
            break;
        }
        pos = pos + 1;
    }
    let ghost k = pos as int;
    v.insert(pos, x);
    proof {
        let r = texts_of(v@);
        assert(r =~= s.insert(k, x@));
        assert forall|i: int, j: int| 0 <= i < j < r.len() implies !text_before(#[trigger] r[j], #[trigger] r[i]) by {
            if j < k {
                assert(r[i] == s[i] && r[j] == s[j]);
            } else if j == k {
                assert(r[i] == s[i]);
            } else if i < k {
                assert(r[i] == s[i] && r[j] == s[j - 1]);
            } else if i == k {
                assert(r[j] == s[j - 1]);
                if text_before(s[j - 1], x@) {
                    lemma_text_before_transitive(s[j - 1], x@, s[k]);
                    if j - 1 == k {
                        lemma_text_before_asymmetric(s[k], s[k]);
                    }
                }
            } else {
                assert(r[i] == s[i - 1] && r[j] == s[j - 1]);
            }
        }
    }
}

/// The label of an injection event: its fault kind and its target, a space
/// between.
pub open spec fn fault_label(e: DstEvent) -> Option<Seq<char>> {
    match e.kind {
        DstEventKind::FaultInjected { fault_kind, target, .. } => Some(fault_kind@ + " "@ + target@),
        _ => None,
    }
}

/// The labels of the faults injected at time `t`, in timeline order.
pub open spec fn labels_at(s: Seq<DstEvent>, t: u64) -> Seq<Seq<char>>
    decreases s.len(),
{
    if s.len() == 0 {
        Seq::empty()
    } else {
        let rest = labels_at(s.drop_last(), t);
        if s.last().elapsed.0 == t && fault_label(s.last()) is Some {
            rest.push(fault_label(s.last())->0)
        } else {
            rest
        }
    }
}

/// The labels of `fa` left over once those of `fb` are matched against
/// them: an occurrence is kept when `fa` had, before it, as many equal
/// labels as `fb` holds.
pub open spec fn unmatched(fa: Seq<Seq<char>>, fb: Seq<Seq<char>>) -> Seq<Seq<char>>
    decreases fa.len(),
{
    if fa.len() == 0 {
        Seq::empty()
    } else {
        let rest = unmatched(fa.drop_last(), fb);
        if count_of(fa.drop_last(), fa.last()) >= count_of(fb, fa.last()) {
            rest.push(fa.last())
        } else {
            rest
        }
    }
}

/// The probe an event reports on, if it is a probe's outcome.
pub open spec fn probe_of(e: DstEvent) -> Option<Seq<char>> {
    match e.kind {
        DstEventKind::ProbeSuccess { probe_name, .. } => Some(probe_name@),
        DstEventKind::ProbeFailed { probe_name, .. } => Some(probe_name@),
        _ => None,
    }
}

/// Whether the last outcome of probe `name` at time `t` was a success;
/// `None` when the probe reported nothing then.
pub open spec fn probe_outcome_at(s: Seq<DstEvent>, t: u64, name: Seq<char>) -> Option<bool>
    decreases s.len(),
{
    if s.len() == 0 {
        None
    } else if s.last().elapsed.0 == t && probe_of(s.last()) == Some(name) {
        Some(s.last().kind is ProbeSuccess)
    } else {
        probe_outcome_at(s.drop_last(), t, name)
    }
}

/// A probe whose outcome differs between the two runs at some instant.
#[derive(Debug, Clone, PartialEq, Eq)]
pub struct ProbeDiff {
    pub probe_name: String,
    /// The outcome in the first run (`Some(true)` for a success).
    pub outcome_a: Option<bool>,
    /// The outcome in the second run.
    pub outcome_b: Option<bool>,
}

/// What differs between two runs at one instant.
#[derive(Debug, Clone, PartialEq, Eq)]
pub struct TimeDiff {
    pub time: VirtualTime,
    /// Faults (as labels) injected then in the first run only.
    pub only_a: Vec<String>,
    /// Faults injected then in the second run only.
    pub only_b: Vec<String>,
    /// Probes whose outcome then differs, in text order.
    pub probes: Vec<ProbeDiff>,
}

/// `d` is the difference between timelines `a` and `b` at time `t`: the
/// unmatched fault labels of each side, and every probe whose last outcome
/// then differs, once each, in text order of their names.
pub open spec fn diff_at_ok(d: TimeDiff, a: Seq<DstEvent>, b: Seq<DstEvent>, t: u64) -> bool {
    &&& d.time.0 == t
    &&& texts_of(d.only_a@) == unmatched(labels_at(a, t), labels_at(b, t))
    &&& texts_of(d.only_b@) == unmatched(labels_at(b, t), labels_at(a, t))
    &&& forall|i: int, j: int|
        0 <= i < j < d.probes@.len() ==> text_before(
            (#[trigger] d.probes@[i]).probe_name@,
            (#[trigger] d.probes@[j]).probe_name@,
        )
    &&& forall|i: int|
        0 <= i < d.probes@.len() ==> {
            let p = #[trigger] d.probes@[i];
            &&& p.outcome_a == probe_outcome_at(a, t, p.probe_name@)
            &&& p.outcome_b == probe_outcome_at(b, t, p.probe_name@)
            &&& p.outcome_a != p.outcome_b
        }
    &&& forall|name: Seq<char>|
        #[trigger] probe_outcome_at(a, t, name) != probe_outcome_at(b, t, name) ==> exists|i: int|
            0 <= i < d.probes@.len() && (#[trigger] d.probes@[i]).probe_name@ == name
}

/// The label of a fault injection.
fn label_of(fault_kind: &String, target: &String) -> (s: String)
    ensures
        s@ == fault_kind@ + " "@ + target@,
{
    let mut s = String::new();
    push_str(&mut s, fault_kind.as_str());
    push_str(&mut s, " ");
    push_str(&mut s, target.as_str());
    s
}

/// The labels of the faults injected at time `t`, in timeline order.
pub fn labels_at_time(events: &[DstEvent], t: u64) -> (r: Vec<String>)
    ensures
        texts_of(r@) == labels_at(events@, t),
{
    let mut r: Vec<String> = Vec::new();
    let mut i: usize = 0;
    while i < events.len()
        invariant
            i <= events@.len(),
            texts_of(r@) == labels_at(events@.take(i as int), t),
        decreases events@.len() - i,
    {
        let ghost pre = events@.take(i as int);
        let ghost next = events@.take(i + 1);
        proof {
            assert(next.drop_last() =~= pre);
            assert(next.last() == events@[i as int]);
        }
        let e = &events[i];
        if e.elapsed.0 == t {
            match &e.kind {
                DstEventKind::FaultInjected { fault_kind, target, .. } => {
                    r.push(label_of(fault_kind, target));
                    assert(texts_of(r@) =~= labels_at(next, t));
                },
                _ => {
                    assert(texts_of(r@) =~= labels_at(next, t));
                },
            }
        }
        i = i + 1;
    }
    assert(events@.take(events@.len() as int) =~= events@);
    r
}

/// How often `x` occurs among the first `upto` texts.
fn count_texts(v: &Vec<String>, upto: usize, x: &String) -> (n: usize)
    requires
        upto <= v@.len(),
    ensures
        n == count_of(texts_of(v@).take(upto as int), x@),
{
    let mut n: usize = 0;
    let mut i: usize = 0;
    while i < upto
        invariant
            i <= upto <= v@.len(),
            n == count_of(texts_of(v@).take(i as int), x@),
            n <= i,
        decreases upto - i,
    {
        proof {
            let t = texts_of(v@).take(i + 1);
            assert(t.drop_last() =~= texts_of(v@).take(i as int));
            assert(t.last() == v@[i as int]@);
        }
        if same_str(v[i].as_str(), x.as_str()) {
            n = n + 1;
        }
        i = i + 1;
    }
    n
}

/// The labels of `fa` left over once those of `fb` are matched against them.
pub fn unmatched_labels(fa: &Vec<String>, fb: &Vec<String>) -> (r: Vec<String>)
    ensures
        texts_of(r@) == unmatched(texts_of(fa@), texts_of(fb@)),
{
    let mut r: Vec<String> = Vec::new();
    let mut i: usize = 0;
    assert(texts_of(fb@).take(fb@.len() as int) =~= texts_of(fb@));
    while i < fa.len()
        invariant
            i <= fa@.len(),
            texts_of(fb@).take(fb@.len() as int) == texts_of(fb@),
            texts_of(r@) == unmatched(texts_of(fa@).take(i as int), texts_of(fb@)),
        decreases fa@.len() - i,
    {
        let before = count_texts(fa, i, &fa[i]);
        let other = count_texts(fb, fb.len(), &fa[i]);
        proof {
            let t = texts_of(fa@).take(i + 1);
            assert(t.drop_last() =~= texts_of(fa@).take(i as int));
            assert(t.last() == fa@[i as int]@);
        }
        if before >= other {
            r.push(fa[i].clone());
        }
        assert(texts_of(r@) =~= unmatched(texts_of(fa@).take(i + 1), texts_of(fb@)));
        i = i + 1;
    }
    assert(texts_of(fa@).take(fa@.len() as int) =~= texts_of(fa@));
    r
}

/// Whether the last outcome of probe `name` at time `t` was a success.
pub fn probe_outcome_at_time(events: &[DstEvent], t: u64, name: &String) -> (o: Option<bool>)
    ensures
        o == probe_outcome_at(events@, t, name@),
{
    let mut o: Option<bool> = None;
    let mut i: usize = 0;
    while i < events.len()
        invariant
            i <= events@.len(),
            o == probe_outcome_at(events@.take(i as int), t, name@),
        decreases events@.len() - i,
    {
        let ghost next = events@.take(i + 1);
        proof {
            assert(next.drop_last() =~= events@.take(i as int));
            assert(next.last() == events@[i as int]);
        }
        let e = &events[i];
        if e.elapsed.0 == t {
            match &e.kind {
                DstEventKind::ProbeSuccess { probe_name, .. } => {
                    if same_str(probe_name.as_str(), name.as_str()) {
                        o = Some(true);
                    }
                },
                DstEventKind::ProbeFailed { probe_name, .. } => {
                    if same_str(probe_name.as_str(), name.as_str()) {
                        o = Some(false);
                    }
                },
                _ => {},
            }
        }
        i = i + 1;
    }
    assert(events@.take(events@.len() as int) =~= events@);
    o
}

/// Some event of `s` at time `t` reports on probe `name`.
pub open spec fn probed_at(s: Seq<DstEvent>, t: u64, name: Seq<char>) -> bool {
    exists|i: int| 0 <= i < s.len() && (#[trigger] s[i]).elapsed.0 == t && probe_of(s[i]) == Some(name)
}

/// A probe has an outcome at `t` exactly when it reported then.
proof fn lemma_outcome_iff_probed(s: Seq<DstEvent>, t: u64, name: Seq<char>)
    ensures
        probe_outcome_at(s, t, name) is Some <==> probed_at(s, t, name),
    decreases s.len(),
{
    if s.len() > 0 {
        let r = s.drop_last();
        lemma_outcome_iff_probed(r, t, name);
        if probed_at(r, t, name) {
            let i = choose|i: int| 0 <= i < r.len() && (#[trigger] r[i]).elapsed.0 == t && probe_of(r[i]) == Some(name);
            assert(s[i] == r[i]);
        }
        if probed_at(s, t, name) {
            let i = choose|i: int| 0 <= i < s.len() && (#[trigger] s[i]).elapsed.0 == t && probe_of(s[i]) == Some(name);
            if i < s.len() - 1 {
                assert(r[i] == s[i]);
            }
        }
        if s.last().elapsed.0 == t && probe_of(s.last()) == Some(name) {
            assert(s[s.len() - 1] == s.last());
        }
    }
}

/// Adds `x` to strings in strict text order, unless it is there.
fn insert_text_unique(v: &mut Vec<String>, x: &String)
    requires
        forall|i: int, j: int| 0 <= i < j < old(v)@.len() ==> text_before((#[trigger] old(v)@[i])@, (#[trigger] old(v)@[j])@),
    ensures
        forall|i: int, j: int| 0 <= i < j < final(v)@.len() ==> text_before((#[trigger] final(v)@[i])@, (#[trigger] final(v)@[j])@),
        forall|y: Seq<char>| texts_of(final(v)@).contains(y) <==> (texts_of(old(v)@).contains(y) || y == x@),
{
    let ghost s = v@;
    let xc = chars_of(x.as_str());
    let mut pos: usize = 0;
    let mut same = false;
    while pos < v.len()
        invariant_except_break
            !same,
        invariant
            v@ == s,
            pos <= s.len(),
            xc@ == x@,
            forall|i: int, j: int| 0 <= i < j < s.len() ==> text_before((#[trigger] s[i])@, (#[trigger] s[j])@),
            forall|i: int| 0 <= i < pos ==> text_before((#[trigger] s[i])@, x@),
        ensures
            v@ == s,
            pos <= s.len(),
            forall|i: int| 0 <= i < pos ==> text_before((#[trigger] s[i])@, x@),
            same ==> pos < s.len() && s[pos as int]@ == x@,
            !same && pos < s.len() ==> text_before(x@, s[pos as int]@),
        decreases s.len() - pos,
    {
        let yc = chars_of(v[pos].as_str());
        let order = compare_texts(yc.as_slice(), xc.as_slice());
        if order == TextOrder::Same {
            same = true;
            break;
        }
        if order == TextOrder::After {
            break;
        }
        pos = pos + 1;
    }
    if same {
        assert forall|y: Seq<char>| texts_of(v@).contains(y) <==> (texts_of(s).contains(y) || y == x@) by {
            if y == x@ {
                assert(texts_of(s)[pos as int] == y);
            }
        }
        return;
    }
    let ghost k = pos as int;
    v.insert(pos, x.clone());
    proof {
        let r = v@;
        assert(r == s.insert(k, *x));
        assert forall|i: int, j: int| 0 <= i < j < r.len() implies text_before((#[trigger] r[i])@, (#[trigger] r[j])@) by {
            if j < k {
                assert(r[i] == s[i] && r[j] == s[j]);
            } else if j == k {
                assert(r[i] == s[i]);
            } else if i < k {
                assert(r[i] == s[i] && r[j] == s[j - 1]);
            } else if i == k {
                assert(r[j] == s[j - 1]);
                if j - 1 > k {
                    lemma_text_before_transitive(x@, s[k]@, s[j - 1]@);
                }
            } else {
                assert(r[i] == s[i - 1] && r[j] == s[j - 1]);
            }
        }
        assert forall|y: Seq<char>| texts_of(r).contains(y) <==> (texts_of(s).contains(y) || y == x@) by {
            if texts_of(r).contains(y) {
                let j = choose|j: int| 0 <= j < texts_of(r).len() && texts_of(r)[j] == y;
                if j < k {
                    assert(texts_of(s)[j] == y);
                } else if j > k {
                    assert(texts_of(s)[j - 1] == y);
                }
            }
            if texts_of(s).contains(y) {
                let j = choose|j: int| 0 <= j < texts_of(s).len() && texts_of(s)[j] == y;
                if j < k {
                    assert(texts_of(r)[j] == y);
                } else {
                    assert(texts_of(r)[j + 1] == y);
                }
            }
            if y == x@ {
                assert(texts_of(r)[k] == y);
            }
        }
    }
}

/// Some event of `s` at time `t` is a probe outcome.
proof fn lemma_probed_step(s: Seq<DstEvent>, i: int, t: u64, y: Seq<char>)
    requires
        0 <= i < s.len(),
    ensures
        probed_at(s.take(i + 1), t, y) <==> (probed_at(s.take(i), t, y) || (s[i].elapsed.0 == t
            && probe_of(s[i]) == Some(y))),
{
    let n = s.take(i + 1);
    let p = s.take(i);
    if probed_at(n, t, y) {
        let j = choose|j: int| 0 <= j < n.len() && (#[trigger] n[j]).elapsed.0 == t && probe_of(n[j]) == Some(y);
        if j < i {
            assert(p[j] == n[j]);
        }
    }
    if probed_at(p, t, y) {
        let j = choose|j: int| 0 <= j < p.len() && (#[trigger] p[j]).elapsed.0 == t && probe_of(p[j]) == Some(y);
        assert(n[j] == p[j]);
    }
    if s[i].elapsed.0 == t && probe_of(s[i]) == Some(y) {
        assert(n[i] == s[i]);
    }
}

/// `names` with the probes reporting at time `t` in `events` added, kept in
/// strict text order.
fn collect_probe_names(events: &[DstEvent], t: u64, names: Vec<String>) -> (r: Vec<String>)
    requires
        forall|i: int, j: int| 0 <= i < j < names@.len() ==> text_before((#[trigger] names@[i])@, (#[trigger] names@[j])@),
    ensures
        forall|i: int, j: int| 0 <= i < j < r@.len() ==> text_before((#[trigger] r@[i])@, (#[trigger] r@[j])@),
        forall|y: Seq<char>| texts_of(r@).contains(y) <==> (texts_of(names@).contains(y) || probed_at(events@, t, y)),
{
    let mut names = names;
    let ghost start = texts_of(names@);
    let mut i: usize = 0;
    while i < events.len()
        invariant
            i <= events@.len(),
            forall|a: int, b: int| 0 <= a < b < names@.len() ==> text_before((#[trigger] names@[a])@, (#[trigger] names@[b])@),
            forall|y: Seq<char>| texts_of(names@).contains(y) <==> (start.contains(y) || probed_at(events@.take(i as int), t, y)),
        decreases events@.len() - i,
    {
        let ghost before = texts_of(names@);
        let ghost i0 = i as int;
        assert(forall|y: Seq<char>| before.contains(y) <==> (start.contains(y) || probed_at(events@.take(i0), t, y)));
        let ghost mut added: Option<Seq<char>> = None;
        let e = &events[i];
        if e.elapsed.0 == t {
            match &e.kind {
                DstEventKind::ProbeSuccess { probe_name, .. } => {
                    insert_text_unique(&mut names, probe_name);
                    proof {
                        added = Some(probe_name@);
                    }
                },
                DstEventKind::ProbeFailed { probe_name, .. } => {
                    insert_text_unique(&mut names, probe_name);
                    proof {
                        added = Some(probe_name@);
                    }
                },
                _ => {},
            }
        }
        proof {
            assert(added == (if events@[i as int].elapsed.0 == t { probe_of(events@[i as int]) } else { None::<Seq<char>> }));
            assert forall|y: Seq<char>| texts_of(names@).contains(y) <==> (before.contains(y) || added == Some(y)) by {}
        }
        i = i + 1;
        proof {
            assert forall|y: Seq<char>| texts_of(names@).contains(y) <==> (start.contains(y) || probed_at(events@.take(i as int), t, y)) by {
                lemma_probed_step(events@, i0, t, y);
                assert(before.contains(y) <==> (start.contains(y) || probed_at(events@.take(i0), t, y)));
            }
        }
    }
    assert(events@.take(events@.len() as int) =~= events@);
    names
}

/// The probes reporting at time `t` in `a` or `b`, in strict text order.
fn probe_names_at(a: &[DstEvent], b: &[DstEvent], t: u64) -> (names: Vec<String>)
    ensures
        forall|i: int, j: int| 0 <= i < j < names@.len() ==> text_before((#[trigger] names@[i])@, (#[trigger] names@[j])@),
        forall|y: Seq<char>| texts_of(names@).contains(y) <==> (probed_at(a@, t, y) || probed_at(b@, t, y)),
{
    let n0: Vec<String> = Vec::new();
    let n1 = collect_probe_names(a, t, n0);
    let names = collect_probe_names(b, t, n1);
    assert forall|y: Seq<char>| texts_of(names@).contains(y) <==> (probed_at(a@, t, y) || probed_at(b@, t, y)) by {
        assert(texts_of(n0@).len() == 0);
        assert(!texts_of(n0@).contains(y));
        assert(texts_of(n1@).contains(y) <==> (texts_of(n0@).contains(y) || probed_at(a@, t, y)));
    }
    names
}

/// What differs between timelines `a` and `b` at time `t`.
pub fn diff_at(a: &[DstEvent], b: &[DstEvent], t: u64) -> (d: TimeDiff)
    ensures
        diff_at_ok(d, a@, b@, t),
{
    let la = labels_at_time(a, t);
    let lb = labels_at_time(b, t);
    let only_a = unmatched_labels(&la, &lb);
    let only_b = unmatched_labels(&lb, &la);
    let names = probe_names_at(a, b, t);
    let mut probes: Vec<ProbeDiff> = Vec::new();
    let mut i: usize = 0;
    while i < names.len()
        invariant
            i <= names@.len(),
            forall|y: Seq<char>| texts_of(names@).contains(y) <==> (probed_at(a@, t, y) || probed_at(b@, t, y)),
            forall|x: int, y: int| 0 <= x < y < names@.len() ==> text_before((#[trigger] names@[x])@, (#[trigger] names@[y])@),
            forall|x: int, y: int|
                0 <= x < y < probes@.len() ==> text_before((#[trigger] probes@[x]).probe_name@, (#[trigger] probes@[y]).probe_name@),
            forall|x: int, k: int|
                0 <= x < probes@.len() && i <= k < names@.len() ==> text_before((#[trigger] probes@[x]).probe_name@, (#[trigger] names@[k])@),
            forall|x: int|
                0 <= x < probes@.len() ==> {
                    let p = #[trigger] probes@[x];
                    &&& p.outcome_a == probe_outcome_at(a@, t, p.probe_name@)
                    &&& p.outcome_b == probe_outcome_at(b@, t, p.probe_name@)
                    &&& p.outcome_a != p.outcome_b
                },
            forall|k: int|
                0 <= k < i && probe_outcome_at(a@, t, (#[trigger] names@[k])@) != probe_outcome_at(b@, t, names@[k]@) ==> exists|x: int|
                    0 <= x < probes@.len() && (#[trigger] probes@[x]).probe_name@ == names@[k]@,
        decreases names@.len() - i,
    {
        let oa = probe_outcome_at_time(a, t, &names[i]);
        let ob = probe_outcome_at_time(b, t, &names[i]);
        let differ = match (oa, ob) {
            (Some(x), Some(y)) => x != y,
            (None, None) => false,
            _ => true,
        };
        if differ {
            let ghost before = probes@;
            probes.push(ProbeDiff { probe_name: names[i].clone(), outcome_a: oa, outcome_b: ob });
            proof {
                assert(probes@[before.len() as int].probe_name@ == names@[i as int]@);
                assert forall|x: int, k: int|
                    0 <= x < probes@.len() && i + 1 <= k < names@.len() implies text_before((#[trigger] probes@[x]).probe_name@, (#[trigger] names@[k])@) by {
                    if x < before.len() {
                        assert(probes@[x] == before[x]);
                        assert(text_before(before[x].probe_name@, names@[k]@));
                    }
                }
                assert forall|x: int, y: int|
                    0 <= x < y < probes@.len() implies text_before((#[trigger] probes@[x]).probe_name@, (#[trigger] probes@[y]).probe_name@) by {
                    if y < before.len() {
                        assert(probes@[x] == before[x] && probes@[y] == before[y]);
                    } else {
                        assert(probes@[x] == before[x]);
                        assert(text_before(before[x].probe_name@, names@[i as int]@));
                    }
                }
                assert forall|k: int|
                    0 <= k < i + 1 && probe_outcome_at(a@, t, (#[trigger] names@[k])@) != probe_outcome_at(b@, t, names@[k]@) implies exists|x: int|
                        0 <= x < probes@.len() && (#[trigger] probes@[x]).probe_name@ == names@[k]@ by {
                    if k < i {
                        let x = choose|x: int| 0 <= x < before.len() && (#[trigger] before[x]).probe_name@ == names@[k]@;
                        assert(probes@[x] == before[x]);
                    } else {
                        assert(probes@[before.len() as int].probe_name@ == names@[k]@);
                    }
                }
            }
        } else {
            proof {
                assert forall|x: int, k: int|
                    0 <= x < probes@.len() && i + 1 <= k < names@.len() implies text_before((#[trigger] probes@[x]).probe_name@, (#[trigger] names@[k])@) by {
                    assert(text_before(probes@[x].probe_name@, names@[k]@));
                }
            }
        }
        i = i + 1;
    }
    let d = TimeDiff { time: VirtualTime(t), only_a, only_b, probes };
    proof {
        assert forall|name: Seq<char>|
            #[trigger] probe_outcome_at(a@, t, name) != probe_outcome_at(b@, t, name) implies exists|x: int|
                0 <= x < d.probes@.len() && (#[trigger] d.probes@[x]).probe_name@ == name by {
            lemma_outcome_iff_probed(a@, t, name);
            lemma_outcome_iff_probed(b@, t, name);
            assert(probed_at(a@, t, name) || probed_at(b@, t, name));
            assert(texts_of(names@).contains(name));
            let k = choose|k: int| 0 <= k < texts_of(names@).len() && texts_of(names@)[k] == name;
            assert(names@[k]@ == name);
            assert(probe_outcome_at(a@, t, names@[k]@) != probe_outcome_at(b@, t, names@[k]@));
            assert(0 <= k < i);
            let x = choose|x: int| 0 <= x < probes@.len() && (#[trigger] probes@[x]).probe_name@ == names@[k]@;
            assert(d.probes@[x].probe_name@ == name);
        }
    }
    d
}

/// Some event of `s` happens at time `t`.
pub open spec fn occurs_at(s: Seq<DstEvent>, t: u64) -> bool {
    exists|i: int| 0 <= i < s.len() && (#[trigger] s[i]).elapsed.0 == t
}

/// The instants of a timeline's events, in order.
pub open spec fn instants(s: Seq<DstEvent>) -> Seq<u64> {
    s.map_values(|e: DstEvent| e.elapsed.0)
}

/// An instant is listed exactly when some event happens then.
proof fn lemma_instants_contains(s: Seq<DstEvent>, t: u64)
    ensures
        instants(s).contains(t) <==> occurs_at(s, t),
{
    if instants(s).contains(t) {
        let j = choose|j: int| 0 <= j < instants(s).len() && instants(s)[j] == t;
        assert(s[j].elapsed.0 == t);
    }
    if occurs_at(s, t) {
        let j = choose|j: int| 0 <= j < s.len() && (#[trigger] s[j]).elapsed.0 == t;
        assert(instants(s)[j] == t);
    }
}

/// The instants of the events of `s`.
fn instants_of(s: &[DstEvent], out: &mut Vec<u64>)
    ensures
        final(out)@ == old(out)@ + instants(s@),
{
    let ghost start = out@;
    let mut i: usize = 0;
    while i < s.len()
        invariant
            i <= s@.len(),
            out@ == start + instants(s@.take(i as int)),
        decreases s@.len() - i,
    {
        out.push(s[i].elapsed.0);
        assert(instants(s@.take(i + 1)) =~= instants(s@.take(i as int)).push(s@[i as int].elapsed.0));
        i = i + 1;
    }
    assert(s@.take(s@.len() as int) =~= s@);
}

/// The distinct instants of two timelines, in order.
pub fn event_times(a: &[DstEvent], b: &[DstEvent]) -> (r: Vec<u64>)
    ensures
        strictly_increasing(r@),
        forall|t: u64| r@.contains(t) <==> (occurs_at(a@, t) || occurs_at(b@, t)),
{
    let mut all: Vec<u64> = Vec::new();
    instants_of(a, &mut all);
    instants_of(b, &mut all);
    let r = distinct_sorted(all.as_slice());
    proof {
        assert(all@ =~= instants(a@) + instants(b@));
        assert forall|t: u64| r@.contains(t) <==> (occurs_at(a@, t) || occurs_at(b@, t)) by {
            lemma_instants_contains(a@, t);
            lemma_instants_contains(b@, t);
            let ia = instants(a@);
            let ib = instants(b@);
            if all@.contains(t) {
                let j = choose|j: int| 0 <= j < all@.len() && all@[j] == t;
                if j < ia.len() {
                    assert(ia[j] == t);
                } else {
                    assert(ib[j - ia.len()] == t);
                }
            }
            if ia.contains(t) {
                let j = choose|j: int| 0 <= j < ia.len() && ia[j] == t;
                assert(all@[j] == t);
            }
            if ib.contains(t) {
                let j = choose|j: int| 0 <= j < ib.len() && ib[j] == t;
                assert(all@[ia.len() + j] == t);
            }
        }
    }
    r
}

/// What differs between two timelines at every instant of either, in time
/// order.
pub fn timeline_diff(a: &[DstEvent], b: &[DstEvent]) -> (r: Vec<TimeDiff>)
    ensures
        forall|i: int, j: int| 0 <= i < j < r@.len() ==> (#[trigger] r@[i]).time.0 < (#[trigger] r@[j]).time.0,
        forall|i: int| 0 <= i < r@.len() ==> diff_at_ok(#[trigger] r@[i], a@, b@, r@[i].time.0),
        forall|t: u64| (occurs_at(a@, t) || occurs_at(b@, t)) <==> exists|i: int| 0 <= i < r@.len() && (#[trigger] r@[i]).time.0 == t,
{
    let times = event_times(a, b);
    let mut r: Vec<TimeDiff> = Vec::new();
    let mut i: usize = 0;
    while i < times.len()
        invariant
            i <= times@.len(),
            strictly_increasing(times@),
            forall|t: u64| times@.contains(t) <==> (occurs_at(a@, t) || occurs_at(b@, t)),
            r@.len() == i,
            forall|k: int| 0 <= k < i ==> (#[trigger] r@[k]).time.0 == times@[k],
            forall|k: int| 0 <= k < i ==> diff_at_ok(#[trigger] r@[k], a@, b@, r@[k].time.0),
        decreases times@.len() - i,
    {
        let d = diff_at(a, b, times[i]);
        r.push(d);
        i = i + 1;
    }
    assert forall|t: u64| (occurs_at(a@, t) || occurs_at(b@, t)) implies exists|k: int| 0 <= k < r@.len() && (#[trigger] r@[k]).time.0 == t by {
        assert(times@.contains(t));
        let k = choose|k: int| 0 <= k < times@.len() && times@[k] == t;
        assert(r@[k].time.0 == t);
    }
    assert forall|t: u64| (exists|k: int| 0 <= k < r@.len() && (#[trigger] r@[k]).time.0 == t) implies (occurs_at(a@, t) || occurs_at(b@, t)) by {
        let k = choose|k: int| 0 <= k < r@.len() && (#[trigger] r@[k]).time.0 == t;
        assert(times@[k] == t);
        assert(times@.contains(t));
    }
    r
}

/// An occurring text is in the sequence.
proof fn lemma_count_positive(s: Seq<Seq<char>>, x: Seq<char>)
    ensures
        count_of(s, x) > 0 ==> s.contains(x),
    decreases s.len(),
{
    if s.len() > 0 {
        lemma_count_positive(s.drop_last(), x);
        if count_of(s.drop_last(), x) > 0 {
            let j = choose|j: int| 0 <= j < s.drop_last().len() && s.drop_last()[j] == x;
            assert(s[j] == x);
        }
        if s.last() == x {
            assert(s[s.len() - 1] == x);
        }
    }
}

/// The strings of `v` in text order.
fn sorted_texts(v: &Vec<String>) -> (r: Vec<String>)
    ensures
        texts_sorted(texts_of(r@)),
        forall|x: Seq<char>| count_of(texts_of(r@), x) == count_of(texts_of(v@), x),
{
    let mut r: Vec<String> = Vec::new();
    let mut i: usize = 0;
    while i < v.len()
        invariant
            i <= v@.len(),
            texts_sorted(texts_of(r@)),
            forall|x: Seq<char>| count_of(texts_of(r@), x) == count_of(texts_of(v@).take(i as int), x),
        decreases v@.len() - i,
    {
        let ghost before = texts_of(r@);
        let item = v[i].clone();
        insert_text_sorted(&mut r, item);
        proof {
            let k = choose|k: int| 0 <= k <= before.len() && texts_of(r@) == before.insert(k, v@[i as int]@);
            let t = texts_of(v@).take(i + 1);
            assert(t.drop_last() =~= texts_of(v@).take(i as int));
            assert(t.last() == v@[i as int]@);
            assert forall|x: Seq<char>| count_of(texts_of(r@), x) == count_of(texts_of(v@).take(i + 1), x) by {
                lemma_count_insert(before, k, v@[i as int]@, x);
            }
        }
        i = i + 1;
    }
    assert(texts_of(v@).take(v@.len() as int) =~= texts_of(v@));
    r
}

/// Whether two lists hold the same texts, each as often.
fn same_counts(la: &Vec<String>, lb: &Vec<String>) -> (r: bool)
    ensures
        r <==> forall|x: Seq<char>| count_of(texts_of(la@), x) == count_of(texts_of(lb@), x),
{
    assert(texts_of(la@).take(la@.len() as int) =~= texts_of(la@));
    assert(texts_of(lb@).take(lb@.len() as int) =~= texts_of(lb@));
    let mut i: usize = 0;
    while i < la.len()
        invariant
            i <= la@.len(),
            texts_of(la@).take(la@.len() as int) == texts_of(la@),
            texts_of(lb@).take(lb@.len() as int) == texts_of(lb@),
            forall|k: int| 0 <= k < i ==> count_of(texts_of(la@), (#[trigger] la@[k])@) == count_of(texts_of(lb@), la@[k]@),
        decreases la@.len() - i,
    {
        if count_texts(la, la.len(), &la[i]) != count_texts(lb, lb.len(), &la[i]) {
            return false;
        }
        i = i + 1;
    }
    let mut j: usize = 0;
    while j < lb.len()
        invariant
            j <= lb@.len(),
            texts_of(la@).take(la@.len() as int) == texts_of(la@),
            texts_of(lb@).take(lb@.len() as int) == texts_of(lb@),
            forall|k: int| 0 <= k < la@.len() ==> count_of(texts_of(la@), (#[trigger] la@[k])@) == count_of(texts_of(lb@), la@[k]@),
            forall|k: int| 0 <= k < j ==> count_of(texts_of(la@), (#[trigger] lb@[k])@) == count_of(texts_of(lb@), lb@[k]@),
        decreases lb@.len() - j,
    {
        if count_texts(la, la.len(), &lb[j]) != count_texts(lb, lb.len(), &lb[j]) {
            return false;
        }
        j = j + 1;
    }
    assert forall|x: Seq<char>| count_of(texts_of(la@), x) == count_of(texts_of(lb@), x) by {
        lemma_count_positive(texts_of(la@), x);
        lemma_count_positive(texts_of(lb@), x);
        if texts_of(la@).contains(x) {
            let k = choose|k: int| 0 <= k < texts_of(la@).len() && texts_of(la@)[k] == x;
            assert(la@[k]@ == x);
        } else if texts_of(lb@).contains(x) {
            let k = choose|k: int| 0 <= k < texts_of(lb@).len() && texts_of(lb@)[k] == x;
            assert(lb@[k]@ == x);
        }
    }
    true
}

/// The faults two runs injected at one instant, where they differ.
#[derive(Debug, Clone, PartialEq, Eq)]
pub struct FaultDiff {
    pub time: VirtualTime,
    /// The labels of the faults injected then in the first run, in text
    /// order.
    pub seed_a: Vec<String>,
    /// The same for the second run.
    pub seed_b: Vec<String>,
}

/// `r` holds the texts of `u`, each as often, in text order.
pub open spec fn sorted_like(r: Seq<Seq<char>>, u: Seq<Seq<char>>) -> bool {
    &&& texts_sorted(r)
    &&& forall|x: Seq<char>| count_of(r, x) == count_of(u, x)
}

/// The two runs did not inject the same faults at time `t`: some label
/// occurs more often in one than in the other.
pub open spec fn faults_differ_at(a: Seq<DstEvent>, b: Seq<DstEvent>, t: u64) -> bool {
    exists|x: Seq<char>| count_of(labels_at(a, t), x) != count_of(labels_at(b, t), x)
}

/// `d` lists, sorted, the faults injected at time `t` by each run.
pub open spec fn fault_diff_ok(d: FaultDiff, a: Seq<DstEvent>, b: Seq<DstEvent>, t: u64) -> bool {
    &&& d.time.0 == t
    &&& sorted_like(texts_of(d.seed_a@), labels_at(a, t))
    &&& sorted_like(texts_of(d.seed_b@), labels_at(b, t))
}

/// A timeline with a fault injected at `t` has an event at `t`.
proof fn lemma_labels_occur(s: Seq<DstEvent>, t: u64)
    ensures
        labels_at(s, t).len() > 0 ==> occurs_at(s, t),
    decreases s.len(),
{
    if s.len() > 0 {
        lemma_labels_occur(s.drop_last(), t);
        if occurs_at(s.drop_last(), t) {
            let j = choose|j: int| 0 <= j < s.drop_last().len() && (#[trigger] s.drop_last()[j]).elapsed.0 == t;
            assert(s[j].elapsed.0 == t);
        }
        if s.last().elapsed.0 == t {
            assert(s[s.len() - 1].elapsed.0 == t);
        }
    }
}

/// The faults both runs injected at time `t`, sorted, when they differ.
fn fault_diff_at(a: &[DstEvent], b: &[DstEvent], t: u64) -> (r: Option<FaultDiff>)
    ensures
        r is Some <==> faults_differ_at(a@, b@, t),
        r matches Some(d) ==> fault_diff_ok(d, a@, b@, t),
{
    let la = labels_at_time(a, t);
    let lb = labels_at_time(b, t);
    if same_counts(&la, &lb) {
        None
    } else {
        let sa = sorted_texts(&la);
        let sb = sorted_texts(&lb);
        Some(FaultDiff { time: VirtualTime(t), seed_a: sa, seed_b: sb })
    }
}

/// The instants at which two runs injected different faults, in time
/// order, each with the faults of both runs then, sorted.
pub fn fault_timeline_diff(a: &[DstEvent], b: &[DstEvent]) -> (r: Vec<FaultDiff>)
    ensures
        forall|i: int, j: int| 0 <= i < j < r@.len() ==> (#[trigger] r@[i]).time.0 < (#[trigger] r@[j]).time.0,
        forall|i: int| 0 <= i < r@.len() ==> fault_diff_ok(#[trigger] r@[i], a@, b@, r@[i].time.0),
        forall|t: u64| faults_differ_at(a@, b@, t) <==> exists|i: int| 0 <= i < r@.len() && (#[trigger] r@[i]).time.0 == t,
{
    let times = event_times(a, b);
    let mut r: Vec<FaultDiff> = Vec::new();
    let mut i: usize = 0;
    while i < times.len()
        invariant
            i <= times@.len(),
            strictly_increasing(times@),
            forall|k: int, m: int| 0 <= k < r@.len() && i <= m < times@.len() ==> (#[trigger] r@[k]).time.0 < #[trigger] times@[m],
            forall|k: int, l: int| 0 <= k < l < r@.len() ==> (#[trigger] r@[k]).time.0 < (#[trigger] r@[l]).time.0,
            forall|k: int| 0 <= k < r@.len() ==> fault_diff_ok(#[trigger] r@[k], a@, b@, r@[k].time.0),
            forall|k: int| 0 <= k < r@.len() ==> faults_differ_at(a@, b@, (#[trigger] r@[k]).time.0),
            forall|m: int| 0 <= m < i && faults_differ_at(a@, b@, #[trigger] times@[m]) ==> exists|k: int|
                0 <= k < r@.len() && (#[trigger] r@[k]).time.0 == times@[m],
        decreases times@.len() - i,
    {
        let found = fault_diff_at(a, b, times[i]);
        match found {
            Some(d) => {
                let ghost before = r@;
                r.push(d);
                proof {
                    assert(r@[before.len() as int].time.0 == times@[i as int]);
                    assert forall|k: int, m: int| 0 <= k < r@.len() && i + 1 <= m < times@.len() implies (#[trigger] r@[k]).time.0 < #[trigger] times@[m] by {
                        if k < before.len() {
                            assert(r@[k] == before[k]);
                            assert(before[k].time.0 < times@[i as int]);
                        }
                    }
                    assert forall|k: int, l: int| 0 <= k < l < r@.len() implies (#[trigger] r@[k]).time.0 < (#[trigger] r@[l]).time.0 by {
                        assert(r@[k] == before[k]);
                        if l < before.len() {
                            assert(r@[l] == before[l]);
                        } else {
                            assert(before[k].time.0 < times@[i as int]);
                        }
                    }
                    assert forall|k: int| 0 <= k < r@.len() implies fault_diff_ok(#[trigger] r@[k], a@, b@, r@[k].time.0)
                        && faults_differ_at(a@, b@, r@[k].time.0) by {
                        if k < before.len() {
                            assert(r@[k] == before[k]);
                        }
                    }
                    assert forall|m: int| 0 <= m < i + 1 && faults_differ_at(a@, b@, #[trigger] times@[m]) implies exists|k: int|
                        0 <= k < r@.len() && (#[trigger] r@[k]).time.0 == times@[m] by {
                        if m < i {
                            let k = choose|k: int| 0 <= k < before.len() && (#[trigger] before[k]).time.0 == times@[m];
                            assert(r@[k] == before[k]);
                        }
                    }
                }
            },
            None => {
                proof {
                    assert forall|k: int, m: int| 0 <= k < r@.len() && i + 1 <= m < times@.len() implies (#[trigger] r@[k]).time.0 < #[trigger] times@[m] by {
                        assert(r@[k].time.0 < times@[i as int]);
                    }
                }
            },
        }
        i = i + 1;
    }
    assert forall|t: u64| faults_differ_at(a@, b@, t) implies exists|k: int| 0 <= k < r@.len() && (#[trigger] r@[k]).time.0 == t by {
        let x = choose|x: Seq<char>| count_of(labels_at(a@, t), x) != count_of(labels_at(b@, t), x);
        lemma_labels_occur(a@, t);
        lemma_labels_occur(b@, t);
        lemma_count_positive(labels_at(a@, t), x);
        lemma_count_positive(labels_at(b@, t), x);
        assert(times@.contains(t));
        let m = choose|m: int| 0 <= m < times@.len() && times@[m] == t;
        assert(faults_differ_at(a@, b@, times@[m]));
    }
    r
}


/// Leaving out the labels of `fb` from those of `fa` is a multiset
/// difference: each label is left as many times as `fa` has it beyond the
/// times `fb` has it.
pub proof fn unmatched_is_multiset_difference(fa: Seq<Seq<char>>, fb: Seq<Seq<char>>, x: Seq<char>)
    ensures
        count_of(unmatched(fa, fb), x) == if count_of(fa, x) > count_of(fb, x) {
            (count_of(fa, x) - count_of(fb, x)) as nat
        } else {
            0nat
        },
    decreases fa.len(),
{
    if fa.len() > 0 {
        unmatched_is_multiset_difference(fa.drop_last(), fb, x);
        let rest = unmatched(fa.drop_last(), fb);
        if count_of(fa.drop_last(), fa.last()) >= count_of(fb, fa.last()) {
            assert(rest.push(fa.last()).drop_last() =~= rest);
        }
    }
}

/// A non-empty sequence holds its last text at least once.
proof fn lemma_count_last(s: Seq<Seq<char>>)
    requires
        s.len() > 0,
    ensures
        count_of(s, s.last()) >= 1,
{
}

/// A timeline compared with itself differs at no instant: no fault is left
/// unmatched on either side and no probe's outcome differs.
pub proof fn self_diff_is_empty(d: TimeDiff, a: Seq<DstEvent>, t: u64)
    requires
        diff_at_ok(d, a, a, t),
    ensures
        d.only_a@.len() == 0,
        d.only_b@.len() == 0,
        d.probes@.len() == 0,
{
    let u = unmatched(labels_at(a, t), labels_at(a, t));
    if u.len() > 0 {
        lemma_count_last(u);
        unmatched_is_multiset_difference(labels_at(a, t), labels_at(a, t), u.last());
    }
    assert(texts_of(d.only_a@).len() == d.only_a@.len());
    if d.probes@.len() > 0 {
        let p = d.probes@[0];
        assert(p.outcome_a == probe_outcome_at(a, t, p.probe_name@));
    }
}

/// A timeline injects the same faults as itself at every instant.
pub proof fn faults_never_differ_from_themselves(a: Seq<DstEvent>, t: u64)
    ensures
        !faults_differ_at(a, a, t),
{
}

} // verus!
