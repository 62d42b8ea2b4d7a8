//! Piecewise-constant schedules made of non-overlapping half-open steps.
//!
//! Times are signed 64-bit ticks (for example nanoseconds since midnight);
//! any totally ordered clock can be mapped onto them.

use std::convert::Infallible;
use vstd::prelude::*;
use vstd::pervasive::cloned;

verus! {

/// Number of steps up to which [`StepSchedule::value_at`] scans linearly;
/// longer schedules are searched by bisection.
pub const LINEAR_SEARCH_THRESHOLD: usize = 32;

/// A value that holds over the half-open interval `[start, end)`.
#[derive(Debug, Clone, Copy, PartialEq, Eq, PartialOrd, Ord)]
pub struct Step<V> {
    pub start: i64,
    pub end: i64,
    pub value: V,
}

impl<V> Step<V> {
    /// A step is valid when its interval is non-empty.
    pub open spec fn is_valid(self) -> bool {
        self.start < self.end
    }

    /// The step's interval holds `t`.
    pub open spec fn contains(self, t: i64) -> bool {
        self.start <= t && t < self.end
    }

    /// Creates a step from its bounds and value; no check is made.
    pub fn new(start: i64, end: i64, value: V) -> (step: Self)
        ensures
            step.start == start,
            step.end == end,
            step.value == value,
    {
        Step { start, end, value }
    }
}

/// Errors reported by [`StepSchedule::new`].
#[derive(Debug, PartialEq)]
pub enum StepScheduleError<V> {
    /// A step whose start is not before its end.
    InvalidStep { step: Step<V> },
    /// Two steps whose intervals overlap once ordered by start.
    OverlappingSteps { first: Step<V>, second: Step<V> },
}

/// Every step has a non-empty interval.
pub open spec fn all_valid<V>(s: Seq<Step<V>>) -> bool {
    forall|i: int| 0 <= i < s.len() ==> (#[trigger] s[i]).is_valid()
}

/// `k` is the index of the first step with an empty interval.
pub open spec fn is_first_invalid<V>(s: Seq<Step<V>>, k: int) -> bool {
    &&& 0 <= k < s.len()
    &&& !s[k].is_valid()
    &&& forall|j: int| 0 <= j < k ==> (#[trigger] s[j]).is_valid()
}

/// Each step ends no later than its successor starts.
pub open spec fn adjacent_disjoint<V>(s: Seq<Step<V>>) -> bool {
    forall|i: int| 0 <= i < s.len() - 1 ==> (#[trigger] s[i]).end <= s[i + 1].start
}

/// `k` is the first position where a step overlaps its successor.
pub open spec fn is_first_overlap<V>(s: Seq<Step<V>>, k: int) -> bool {
    &&& 0 <= k < s.len() - 1
    &&& s[k].end > s[k + 1].start
    &&& forall|j: int| 0 <= j < k ==> (#[trigger] s[j]).end <= s[j + 1].start
}

/// Steps are ordered by start time.
pub open spec fn is_sorted_by_start<V>(s: Seq<Step<V>>) -> bool {
    forall|i: int, j: int| 0 <= i <= j < s.len() ==> (#[trigger] s[i]).start <= (#[trigger] s[j]).start
}

/// Inserts `x` into `sorted` after every step whose start is at most `x.start`.
pub open spec fn insert_by_start<V>(sorted: Seq<Step<V>>, x: Step<V>) -> Seq<Step<V>>
    decreases sorted.len(),
{
    if sorted.len() == 0 {
        seq![x]
    } else if sorted.last().start <= x.start {
        sorted.push(x)
    } else {
        insert_by_start(sorted.drop_last(), x).push(sorted.last())
    }
}

/// The stable sort of `s` by start time: steps with equal starts keep their
/// relative order.
pub open spec fn sort_by_start<V>(s: Seq<Step<V>>) -> Seq<Step<V>>
    decreases s.len(),
{
    if s.len() == 0 {
        Seq::empty()
    } else {
        insert_by_start(sort_by_start(s.drop_last()), s.last())
    }
}

/// The invariant of a schedule: valid steps, each ending no later than any
/// later step starts.
pub open spec fn schedule_wf<V>(s: Seq<Step<V>>) -> bool {
    &&& all_valid(s)
    &&& forall|i: int, j: int| 0 <= i < j < s.len() ==> (#[trigger] s[i]).end <= (#[trigger] s[j]).start
}

/// Some step of `s` holds `t`.
pub open spec fn covers<V>(s: Seq<Step<V>>, t: i64) -> bool {
    exists|i: int| 0 <= i < s.len() && (#[trigger] s[i]).contains(t)
}

/// The value in force at `t`: that of a step holding `t`, if there is one.
pub open spec fn value_at_spec<V>(s: Seq<Step<V>>, t: i64) -> Option<V> {
    if covers(s, t) {
        Some(s[choose|i: int| 0 <= i < s.len() && (#[trigger] s[i]).contains(t)].value)
    } else {
        None
    }
}

/// Inserting at a position characterised by the neighbouring starts gives
/// the same sequence as `insert_by_start`.
proof fn lemma_insert_by_start_at<V>(p: Seq<Step<V>>, x: Step<V>, k: int)
    requires
        0 <= k <= p.len(),
        k > 0 ==> p[k - 1].start <= x.start,
        forall|j: int| k <= j < p.len() ==> (#[trigger] p[j]).start > x.start,
    ensures
        insert_by_start(p, x) == p.insert(k, x),
    decreases p.len(),
{
    if p.len() == 0 {
        assert(p.insert(k, x) =~= seq![x]);
    } else if k == p.len() {
        assert(p.insert(k, x) =~= p.push(x));
    } else {
        let q = p.drop_last();
        assert(p[p.len() - 1].start > x.start);
        lemma_insert_by_start_at(q, x, k);
        assert(q.insert(k, x).push(p.last()) =~= p.insert(k, x));
    }
}

/// `insert_by_start` adds exactly one occurrence of `x`.
proof fn lemma_insert_by_start_multiset<V>(p: Seq<Step<V>>, x: Step<V>)
    ensures
        insert_by_start(p, x).to_multiset() == p.to_multiset().insert(x),
        insert_by_start(p, x).len() == p.len() + 1,
    decreases p.len(),
{
    broadcast use vstd::seq_lib::group_to_multiset_ensures;
    broadcast use vstd::multiset::group_multiset_axioms;

    if p.len() == 0 {
        assert(seq![x] =~= Seq::<Step<V>>::empty().push(x));
        vstd::seq_lib::to_multiset_build(Seq::<Step<V>>::empty(), x);
    } else if p.last().start <= x.start {
        vstd::seq_lib::to_multiset_build(p, x);
    } else {
        let q = p.drop_last();
        lemma_insert_by_start_multiset(q, x);
        vstd::seq_lib::to_multiset_build(insert_by_start(q, x), p.last());
        vstd::seq_lib::to_multiset_build(q, p.last());
        assert(q.push(p.last()) =~= p);
        assert(p.to_multiset().insert(x) =~= q.to_multiset().insert(x).insert(p.last()));
    }
}

/// `insert_by_start` keeps a sorted sequence sorted.
proof fn lemma_insert_by_start_sorted<V>(p: Seq<Step<V>>, x: Step<V>)
    requires
        is_sorted_by_start(p),
    ensures
        is_sorted_by_start(insert_by_start(p, x)),
        insert_by_start(p, x).len() == p.len() + 1,
        forall|i: int|
            0 <= i < insert_by_start(p, x).len() ==> (#[trigger] insert_by_start(p, x)[i]).start
                == x.start || exists|j: int| 0 <= j < p.len() && p[j].start
                == insert_by_start(p, x)[i].start,
    decreases p.len(),
{
    if p.len() == 0 {
    } else if p.last().start <= x.start {
        let r = p.push(x);
        assert forall|i: int, j: int| 0 <= i <= j < r.len() implies (#[trigger] r[i]).start <= (
        #[trigger] r[j]).start by {
            if j == r.len() - 1 && i < j {
                assert(p[i].start <= p[p.len() - 1].start);
            }
        }
        assert forall|i: int| 0 <= i < r.len() implies (#[trigger] r[i]).start == x.start
            || exists|j: int| 0 <= j < p.len() && p[j].start == r[i].start by {
            if i < p.len() {
                assert(p[i].start == r[i].start);
            }
        }
    } else {
        let q = p.drop_last();
        assert(is_sorted_by_start(q));
        lemma_insert_by_start_sorted(q, x);
        let m = insert_by_start(q, x);
        let r = m.push(p.last());
        assert forall|i: int| 0 <= i < m.len() implies (#[trigger] m[i]).start <= p.last().start by {
            if m[i].start != x.start {
                let j = choose|j: int| 0 <= j < q.len() && q[j].start == m[i].start;
                assert(p[j].start <= p[p.len() - 1].start);
            }
        }
        assert forall|i: int, j: int| 0 <= i <= j < r.len() implies (#[trigger] r[i]).start <= (
        #[trigger] r[j]).start by {
            if j == r.len() - 1 {
                if i < j {
                    assert(m[i].start <= p.last().start);
                }
            } else {
                assert(m[i].start <= m[j].start);
            }
        }
        assert forall|i: int| 0 <= i < r.len() implies (#[trigger] r[i]).start == x.start
            || exists|j: int| 0 <= j < p.len() && p[j].start == r[i].start by {
            if i == r.len() - 1 {
                assert(p[p.len() - 1].start == r[i].start);
            } else if m[i].start != x.start {
                let j = choose|j: int| 0 <= j < q.len() && q[j].start == m[i].start;
                assert(p[j].start == r[i].start);
            }
        }
    }
}

/// Sorting by start time permutes the steps: no step is lost or added.
pub proof fn lemma_sort_by_start_permutes<V>(s: Seq<Step<V>>)
    ensures
        sort_by_start(s).to_multiset() == s.to_multiset(),
        sort_by_start(s).len() == s.len(),
    decreases s.len(),
{
    broadcast use vstd::seq_lib::group_to_multiset_ensures;

    if s.len() == 0 {
    } else {
        let q = s.drop_last();
        lemma_sort_by_start_permutes(q);
        lemma_insert_by_start_multiset(sort_by_start(q), s.last());
        vstd::seq_lib::to_multiset_build(q, s.last());
        assert(q.push(s.last()) =~= s);
    }
}

/// Sorting by start time yields steps ordered by start.
pub proof fn lemma_sort_by_start_sorted<V>(s: Seq<Step<V>>)
    ensures
        is_sorted_by_start(sort_by_start(s)),
    decreases s.len(),
{
    if s.len() == 0 {
    } else {
        lemma_sort_by_start_sorted(s.drop_last());
        lemma_insert_by_start_sorted(sort_by_start(s.drop_last()), s.last());
    }
}

/// Sorting steps that are already ordered by start leaves them as they are.
pub proof fn lemma_sort_by_start_of_sorted<V>(s: Seq<Step<V>>)
    requires
        is_sorted_by_start(s),
    ensures
        sort_by_start(s) == s,
    decreases s.len(),
{
    if s.len() == 0 {
        assert(sort_by_start(s) =~= s);
    } else {
        let q = s.drop_last();
        assert(is_sorted_by_start(q));
        lemma_sort_by_start_of_sorted(q);
        assert(q.push(s.last()) =~= s);
        if s.len() >= 2 {
            assert(s[s.len() - 2].start <= s[s.len() - 1].start);
            assert(q.last() == s[s.len() - 2]);
        } else {
            assert(seq![s.last()] =~= s);
        }
    }
}

/// Valid steps that are pairwise disjoint with their successors are disjoint
/// from every later step.
proof fn lemma_adjacent_to_wf<V>(s: Seq<Step<V>>)
    requires
        all_valid(s),
        adjacent_disjoint(s),
    ensures
        schedule_wf(s),
{
    assert forall|i: int, j: int| 0 <= i < j < s.len() implies (#[trigger] s[i]).end <= (
    #[trigger] s[j]).start by {
        lemma_adjacent_chain(s, i, j);
    }
}

proof fn lemma_adjacent_chain<V>(s: Seq<Step<V>>, i: int, j: int)
    requires
        all_valid(s),
        adjacent_disjoint(s),
        0 <= i < j < s.len(),
    ensures
        s[i].end <= s[j].start,
    decreases j - i,
{
    if j > i + 1 {
        lemma_adjacent_chain(s, i, j - 1);
        assert(s[j - 1].is_valid());
        assert(s[j - 1].end <= s[j].start);
    } else {
        assert(s[i].end <= s[i + 1].start);
    }
}

/// Two sequences ordered by start, holding the same steps, are equal when
/// the first has strictly increasing starts.
proof fn lemma_sorted_same_multiset_equal<V>(a: Seq<Step<V>>, b: Seq<Step<V>>)
    requires
        forall|i: int, j: int| 0 <= i < j < a.len() ==> (#[trigger] a[i]).start < (#[trigger] a[j]).start,
        is_sorted_by_start(b),
        a.to_multiset() == b.to_multiset(),
    ensures
        a == b,
    decreases a.len(),
{
    broadcast use vstd::seq_lib::group_to_multiset_ensures;

    vstd::seq_lib::to_multiset_len(a);
    vstd::seq_lib::to_multiset_len(b);
    if a.len() == 0 {
        assert(b.len() == 0);
        assert(a =~= b);
    } else {
        assert(b.len() == a.len());
        let x = a[0];
        let y = b[0];
        assert(a.contains(x));
        assert(b.to_multiset().count(x) > 0);
        assert(b.contains(x));
        let j = choose|j: int| 0 <= j < b.len() && b[j] == x;
        assert(b[0].start <= b[j].start);
        assert(b.contains(y));
        assert(a.to_multiset().count(y) > 0);
        assert(a.contains(y));
        let k = choose|k: int| 0 <= k < a.len() && a[k] == y;
        if k > 0 {
            assert(a[0].start < a[k].start);
        }
        assert(k == 0);
        assert(x == y);
        vstd::seq_lib::to_multiset_remove(a, 0);
        vstd::seq_lib::to_multiset_remove(b, 0);
        assert(a.remove(0) =~= a.drop_first());
        assert(b.remove(0) =~= b.drop_first());
        lemma_sorted_same_multiset_equal(a.drop_first(), b.drop_first());
        assert(a =~= b) by {
            assert forall|i: int| 0 <= i < a.len() implies a[i] == b[i] by {
                if i > 0 {
                    assert(a.drop_first()[i - 1] == b.drop_first()[i - 1]);
                }
            }
        }
    }
}

/// The order in which steps are given does not matter: inputs holding the
/// same steps are accepted together and give the same schedule.
pub proof fn lemma_order_of_steps_is_irrelevant<V>(s: Seq<Step<V>>, t: Seq<Step<V>>)
    requires
        s.to_multiset() == t.to_multiset(),
        all_valid(s),
        adjacent_disjoint(sort_by_start(s)),
    ensures
        all_valid(t),
        adjacent_disjoint(sort_by_start(t)),
        sort_by_start(s) == sort_by_start(t),
{
    broadcast use vstd::seq_lib::group_to_multiset_ensures;

    assert forall|i: int| 0 <= i < t.len() implies (#[trigger] t[i]).is_valid() by {
        let x = t[i];
        assert(t.contains(x));
        assert(s.to_multiset().count(x) > 0);
        assert(s.contains(x));
        let j = choose|j: int| 0 <= j < s.len() && s[j] == x;
        assert(s[j].is_valid());
    }
    let a = sort_by_start(s);
    let b = sort_by_start(t);
    lemma_sort_by_start_permutes(s);
    lemma_sort_by_start_permutes(t);
    lemma_sort_by_start_sorted(t);
    assert(all_valid(a)) by {
        assert forall|i: int| 0 <= i < a.len() implies (#[trigger] a[i]).is_valid() by {
            let x = a[i];
            assert(a.contains(x));
            assert(s.to_multiset().count(x) > 0);
            assert(s.contains(x));
            let j = choose|j: int| 0 <= j < s.len() && s[j] == x;
            assert(s[j].is_valid());
        }
    }
    lemma_adjacent_to_wf(a);
    assert forall|i: int, j: int| 0 <= i < j < a.len() implies (#[trigger] a[i]).start < (
    #[trigger] a[j]).start by {
        assert(a[i].is_valid());
        assert(a[i].end <= a[j].start);
    }
    lemma_sorted_same_multiset_equal(a, b);
}

/// In a well-formed schedule at most one step holds any given time.
pub proof fn lemma_at_most_one_step_contains<V>(s: Seq<Step<V>>, t: i64, i: int, j: int)
    requires
        schedule_wf(s),
        0 <= i < s.len(),
        0 <= j < s.len(),
        s[i].contains(t),
        s[j].contains(t),
    ensures
        i == j,
{
    if i < j {
        assert(s[i].end <= s[j].start);
    } else if j < i {
        assert(s[j].end <= s[i].start);
    }
}

/// In a well-formed schedule every step answers for its own interval: at each
/// time it holds, the value in force is that step's value.
pub proof fn lemma_step_answers_its_interval<V>(s: Seq<Step<V>>, i: int, t: i64)
    requires
        schedule_wf(s),
        0 <= i < s.len(),
        s[i].contains(t),
    ensures
        value_at_spec(s, t) == Some(s[i].value),
{
    assert(covers(s, t));
    let k = choose|k: int| 0 <= k < s.len() && (#[trigger] s[k]).contains(t);
    lemma_at_most_one_step_contains(s, t, i, k);
}

/// A schedule of non-overlapping steps, ordered by start time.
pub struct StepSchedule<V> {
    steps: Vec<Step<V>>,
}

impl<V> View for StepSchedule<V> {
    type V = Seq<Step<V>>;

    open spec fn view(&self) -> Seq<Step<V>> {
        self.steps()
    }
}

/// Index of the first step with an empty interval, if any.
fn find_first_invalid<V>(steps: &Vec<Step<V>>) -> (r: Option<usize>)
    ensures
        match r {
            Some(k) => is_first_invalid(steps@, k as int),
            None => all_valid(steps@),
        },
{
    let n = steps.len();
    let mut i: usize = 0;
    while i < n
        invariant
            n == steps@.len(),
            i <= n,
            forall|j: int| 0 <= j < i ==> (#[trigger] steps@[j]).is_valid(),
        decreases n - i,
    {
        if steps[i].start >= steps[i].end {
            return Some(i);
        }
        i = i + 1;
    }
    None
}

/// Index of the first step that overlaps its successor, if any.
fn find_first_overlap<V>(steps: &Vec<Step<V>>) -> (r: Option<usize>)
    ensures
        match r {
            Some(k) => is_first_overlap(steps@, k as int),
            None => adjacent_disjoint(steps@),
        },
{
    let n = steps.len();
    if n < 2 {
        return None;
    }
    let mut i: usize = 0;
    while i + 1 < n
        invariant
            n == steps@.len(),
            n >= 2,
            i + 1 <= n,
            forall|j: int| 0 <= j < i ==> (#[trigger] steps@[j]).end <= steps@[j + 1].start,
        decreases n - i,
    {
        if steps[i].end > steps[i + 1].start {
            return Some(i);
        }
        i = i + 1;
    }
    None
}

/// Stable insertion sort by start time.
fn sort_steps<V>(steps: Vec<Step<V>>) -> (r: Vec<Step<V>>)
    ensures
        r@ == sort_by_start(steps@),
{
    let ghost orig = steps@;
    let mut v = steps;
    let n = v.len();
    let mut i: usize = 0;
    assert(orig.take(0) =~= Seq::<Step<V>>::empty());
    assert(v@.skip(0) =~= orig.skip(0));
    while i < n
        invariant
            n == orig.len(),
            v@.len() == n,
            i <= n,
            v@.take(i as int) == sort_by_start(orig.take(i as int)),
            v@.skip(i as int) == orig.skip(i as int),
        decreases n - i,
    {
        let ghost prefix = v@.take(i as int);
        assert(v@[i as int] == orig[i as int]) by {
            assert(v@.skip(i as int)[0] == orig.skip(i as int)[0]);
        }
        let ghost full = v@;
        let x = v.remove(i);
        assert(v@.take(i as int) =~= prefix);
        assert(v@.skip(i as int) =~= full.skip(i + 1));
        assert(full.skip(i + 1) =~= full.skip(i as int).skip(1));
        assert(orig.skip(i + 1) =~= orig.skip(i as int).skip(1));
        let mut k: usize = i;
        while k > 0 && v[k - 1].start > x.start
            invariant
                k <= i,
                i < n,
                v@.len() == n - 1,
                v@.take(i as int) == prefix,
                forall|j: int| k <= j < i ==> (#[trigger] prefix[j]).start > x.start,
            decreases k,
        {
            k = k - 1;
        }
        proof {
            assert(k > 0 ==> prefix[k - 1].start <= x.start);
            lemma_insert_by_start_at(prefix, x, k as int);
            assert(orig.take(i + 1).drop_last() =~= orig.take(i as int));
            assert(orig.take(i + 1).last() == orig[i as int]);
        }
        let ghost before = v@;
        v.insert(k, x);
        proof {
            assert(v@.take(i + 1) =~= prefix.insert(k as int, x));
            assert(v@.skip(i + 1) =~= before.skip(i as int));
            assert(before.skip(i as int) =~= orig.skip(i + 1));
        }
        i = i + 1;
    }
    assert(v@ =~= v@.take(n as int));
    assert(orig =~= orig.take(n as int));
    v
}

/// Position of the step holding `time`, found by scanning from the front.
fn linear_find<V>(steps: &Vec<Step<V>>, time: i64) -> (r: Option<usize>)
    ensures
        match r {
            Some(k) => k < steps@.len() && steps@[k as int].contains(time),
            None => !covers(steps@, time),
        },
{
    let n = steps.len();
    let mut i: usize = 0;
    while i < n
        invariant
            n == steps@.len(),
            i <= n,
            forall|j: int| 0 <= j < i ==> !(#[trigger] steps@[j]).contains(time),
        decreases n - i,
    {
        if steps[i].start <= time && time < steps[i].end {
            return Some(i);
        }
        i = i + 1;
    }
    None
}

/// Position of the step holding `time`, found by bisection over a
/// well-formed schedule.
fn bisect_find<V>(steps: &Vec<Step<V>>, time: i64) -> (r: Option<usize>)
    requires
        schedule_wf(steps@),
    ensures
        match r {
            Some(k) => k < steps@.len() && steps@[k as int].contains(time),
            None => !covers(steps@, time),
        },
{
    let n = steps.len();
    let mut lo: usize = 0;
    let mut hi: usize = n;
    while lo < hi
        invariant
            n == steps@.len(),
            lo <= hi <= n,
            schedule_wf(steps@),
            forall|j: int|
                (0 <= j < lo || hi <= j < n) ==> !(#[trigger] steps@[j]).contains(time),
        decreases hi - lo,
    {
        let mid = lo + (hi - lo) / 2;
        if time < steps[mid].start {
            proof {
                assert forall|j: int| mid <= j < n implies !(#[trigger] steps@[j]).contains(time) by {
                    if j > mid {
                        assert(steps@[mid as int].end <= steps@[j].start);
                        assert(steps@[mid as int].is_valid());
                    }
                }
            }
            hi = mid;
        } else if time >= steps[mid].end {
            proof {
                assert forall|j: int| 0 <= j <= mid implies !(#[trigger] steps@[j]).contains(time) by {
                    if j < mid {
                        assert(steps@[j].end <= steps@[mid as int].start);
                        assert(steps@[mid as int].is_valid());
                    }
                }
            }
            lo = mid + 1;
        } else {
            return Some(mid);
        }
    }
    None
}

impl<V> StepSchedule<V> {
    /// The schedule's steps, in order.
    pub closed spec fn steps(&self) -> Seq<Step<V>> {
        self.steps@
    }

    #[verifier::type_invariant]
    closed spec fn inv(&self) -> bool {
        schedule_wf(self.steps@)
    }

    /// Builds a schedule from steps given in any order.
    ///
    /// Fails with `InvalidStep`, carrying the first step (in the given order)
    /// whose start is not before its end; otherwise sorts the steps stably by
    /// start and fails with `OverlappingSteps`, carrying the first pair of
    /// neighbours that overlap; otherwise succeeds with the sorted steps.
    pub fn new(steps: Vec<Step<V>>) -> (r: Result<Self, StepScheduleError<V>>)
        ensures
            match r {
                Ok(s) => {
                    &&& all_valid(steps@)
                    &&& adjacent_disjoint(sort_by_start(steps@))
                    &&& s@ == sort_by_start(steps@)
                    &&& schedule_wf(s@)
                },
                Err(StepScheduleError::InvalidStep { step }) => exists|k: int|
                    #[trigger] is_first_invalid(steps@, k) && step == steps@[k],
                Err(StepScheduleError::OverlappingSteps { first, second }) => {
                    &&& all_valid(steps@)
                    &&& exists|k: int| #[trigger]
                        is_first_overlap(sort_by_start(steps@), k) && first == sort_by_start(
                            steps@,
                        )[k] && second == sort_by_start(steps@)[k + 1]
                },
            },
    {
        let mut steps = steps;
        let ghost orig = steps@;
        match find_first_invalid(&steps) {
            Some(index) => {
                let bad = steps.remove(index);
                return Err(StepScheduleError::InvalidStep { step: bad });
            },
            None => {},
        }
        let mut sorted = sort_steps(steps);
        match find_first_overlap(&sorted) {
            Some(index) => {
                let ghost s = sorted@;
                let n = sorted.len();
                assert(index + 1 < n);
                let second = sorted.remove(index + 1);
                let first = sorted.remove(index);
                assert(is_first_overlap(s, index as int));
                Err(StepScheduleError::OverlappingSteps { first, second })
            },
            None => {
                proof {
                    lemma_sort_by_start_permutes(orig);
                    assert forall|i: int| 0 <= i < sorted@.len() implies (
                    #[trigger] sorted@[i]).is_valid() by {
                        let a = sorted@[i];
                        vstd::seq_lib::to_multiset_contains(sorted@, a);
                        vstd::seq_lib::to_multiset_contains(orig, a);
                        assert(sorted@.contains(a));
                        let j = choose|j: int| 0 <= j < orig.len() && orig[j] == a;
                        assert(orig[j].is_valid());
                    }
                    lemma_adjacent_to_wf(sorted@);
                }
                Ok(StepSchedule { steps: sorted })
            },
        }
    }
    /// The value in force at `time`, if a step holds it.
    ///
    /// Short schedules are scanned; longer ones are searched by bisection.
    pub fn value_at(&self, time: &i64) -> (r: Option<&V>)
        ensures
            schedule_wf(self@),
            r.is_some() == covers(self@, *time),
            r matches Some(v) ==> value_at_spec(self@, *time) == Some(*v),
    {
        proof {
            use_type_invariant(self);
        }
        let found = if self.steps.len() <= LINEAR_SEARCH_THRESHOLD {
            linear_find(&self.steps, *time)
        } else {
            bisect_find(&self.steps, *time)
        };
        match found {
            Some(k) => {
                proof {
                    lemma_step_answers_its_interval(self@, k as int, *time);
                }
                Some(&self.steps[k].value)
            },
            None => None,
        }
    }

    /// Evaluates the schedule as a component: a copy of the value in force
    /// at `input`, if any. This never fails.
    pub fn call(&self, input: i64) -> (r: Result<Option<V>, Infallible>) where V: Clone
        ensures
            r is Ok,
            r matches Ok(o) && o.is_some() == covers(self@, input),
            r matches Ok(Some(v)) ==> cloned(value_at_spec(self@, input).unwrap(), v),
    {
        match self.value_at(&input) {
            Some(v) => Ok(Some(v.clone())),
            None => Ok(None),
        }
    }
}

} // verus!
