//! Singular points, in a small vector that spills to the heap past eight.

use vstd::prelude::*;
use vstd::seq_lib::to_multiset_update;
use smallvec::SmallVec;
use crate::float::Double;
use crate::single::common::Range;

verus! {

/// The most points that a vector is asked to hold: beyond it the size of the
/// allocation, in bytes, may not fit the address space.
pub const POINTS_LIMIT: usize = usize::MAX / 32;

/// Singular points, in a `SmallVec` of the bit patterns of doubles.
#[verifier::external_body]
#[derive(Debug, PartialEq, Eq)]
pub struct Points {
    inner: SmallVec<[u64; 8]>,
}

/// The bit patterns that a vector of points holds, in order.
pub uninterp spec fn points_bits(p: Points) -> Seq<u64>;

/// Whether `x` lies from `lo` to `hi`. No NaN does.
pub open spec fn spec_within(x: Double, lo: Double, hi: Double) -> bool {
    lo.le(x) && x.le(hi)
}

/// Whether `x` lies from `lo` to `hi`. No NaN does.
#[verifier::when_used_as_spec(spec_within)]
pub fn within(x: Double, lo: Double, hi: Double) -> (r: bool)
    ensures
        r == spec_within(x, lo, hi),
{
    lo.le(x) && x.le(hi)
}

/// Filtering bit patterns by the doubles they stand for is filtering the
/// doubles.
proof fn lemma_filter_bits(bits: Seq<u64>, lo: Double, hi: Double)
    ensures
        bits.filter(|b: u64| spec_within(Double { bits: b }, lo, hi)).map_values(
            |b: u64| Double { bits: b },
        ) == bits.map_values(|b: u64| Double { bits: b }).filter(
            |x: Double| spec_within(x, lo, hi),
        ),
    decreases bits.len(),
{
    let pb = |b: u64| spec_within(Double { bits: b }, lo, hi);
    let pd = |x: Double| spec_within(x, lo, hi);
    let cv = |b: u64| Double { bits: b };
    reveal(Seq::filter);
    if bits.len() == 0 {
        assert(bits.filter(pb).map_values(cv) =~= bits.map_values(cv).filter(pd));
    } else {
        lemma_filter_bits(bits.drop_last(), lo, hi);
        assert(bits.map_values(cv).drop_last() =~= bits.drop_last().map_values(cv));
        assert(bits.filter(pb).map_values(cv) =~= bits.map_values(cv).filter(pd));
    }
}

impl Clone for Points {
    /// `SmallVec::clone`: a vector that holds the same points.
    #[verifier::external_body]
    fn clone(&self) -> (p: Points)
        ensures
            points_bits(p) == points_bits(*self),
    {
        Points { inner: self.inner.clone() }
    }
}

impl Points {
    /// The points held, in order.
    pub open spec fn view(&self) -> Seq<Double> {
        points_bits(*self).map_values(|b: u64| Double { bits: b })
    }

    /// `SmallVec::with_capacity`: an empty vector with room for `n` points.
    /// It panics where the size of `n` points overflows, which the limit
    /// excludes.
    #[verifier::external_body]
    fn raw_with_capacity(n: usize) -> (p: Points)
        requires
            n <= POINTS_LIMIT,
        ensures
            points_bits(p) == Seq::<u64>::empty(),
    {
        Points { inner: SmallVec::with_capacity(n) }
    }

    /// `SmallVec::len`: the number of points held.
    #[verifier::external_body]
    fn raw_len(&self) -> (n: usize)
        ensures
            n == points_bits(*self).len(),
    {
        self.inner.len()
    }

    /// `SmallVec::push`: appends one point. It panics where the grown
    /// capacity overflows, which the limit excludes.
    #[verifier::external_body]
    fn raw_push(&mut self, x: Double)
        requires
            points_bits(*old(self)).len() < POINTS_LIMIT,
        ensures
            points_bits(*final(self)) == points_bits(*old(self)).push(x.bits),
    {
        self.inner.push(x.bits)
    }

    /// Indexing a `SmallVec`: the point at position `i`, which must exist.
    #[verifier::external_body]
    fn raw_get(&self, i: usize) -> (x: Double)
        requires
            i < points_bits(*self).len(),
        ensures
            x.bits == points_bits(*self)[i as int],
    {
        Double { bits: self.inner[i] }
    }

    /// Assigning through the index of a `SmallVec`: replaces the point at
    /// position `i`, which must exist.
    #[verifier::external_body]
    fn raw_set(&mut self, i: usize, x: Double)
        requires
            i < points_bits(*old(self)).len(),
        ensures
            points_bits(*final(self)) == points_bits(*old(self)).update(i as int, x.bits),
    {
        self.inner[i] = x.bits;
    }

    /// `SmallVec::retain`: keeps the points from `lo` to `hi`, in their order,
    /// and drops the others.
    #[verifier::external_body]
    fn raw_retain_within(&mut self, lo: Double, hi: Double)
        ensures
            points_bits(*final(self)) == points_bits(*old(self)).filter(
                |b: u64| spec_within(Double { bits: b }, lo, hi),
            ),
    {
        self.inner.retain(|b| within(Double { bits: *b }, lo, hi))
    }

    /// An empty vector of points.
    pub fn new() -> (p: Points)
        ensures
            p@ == Seq::<Double>::empty(),
    {
        let p = Points::raw_with_capacity(0);
        assert(p@ =~= Seq::<Double>::empty());
        p
    }

    /// An empty vector with room for `n` points. Where `n` is more than a
    /// vector may hold, no room is made.
    pub fn with_capacity(n: usize) -> (p: Points)
        ensures
            p@ == Seq::<Double>::empty(),
    {
        let p = if n <= POINTS_LIMIT {
            Points::raw_with_capacity(n)
        } else {
            Points::raw_with_capacity(0)
        };
        assert(p@ =~= Seq::<Double>::empty());
        p
    }

    /// The number of points.
    pub fn len(&self) -> (n: usize)
        ensures
            n == self@.len(),
    {
        self.raw_len()
    }

    /// Whether there is no point.
    pub fn is_empty(&self) -> (r: bool)
        ensures
            r == (self@.len() == 0),
    {
        self.raw_len() == 0
    }

    /// The point at position `i`.
    pub fn get(&self, i: usize) -> (x: Double)
        requires
            i < self@.len(),
        ensures
            x == self@[i as int],
    {
        self.raw_get(i)
    }

    /// Replaces the point at position `i`.
    pub fn set(&mut self, i: usize, x: Double)
        requires
            i < old(self)@.len(),
        ensures
            final(self)@ == old(self)@.update(i as int, x),
    {
        self.raw_set(i, x);
        assert(self@ =~= old(self)@.update(i as int, x));
    }

    /// Appends a point, and says whether it did: a vector that holds
    /// `POINTS_LIMIT` points takes no more.
    pub fn push(&mut self, x: Double) -> (pushed: bool)
        ensures
            pushed == (old(self)@.len() < POINTS_LIMIT),
            pushed ==> final(self)@ == old(self)@.push(x),
            !pushed ==> final(self)@ == old(self)@,
    {
        if self.raw_len() < POINTS_LIMIT {
            self.raw_push(x);
            assert(self@ =~= old(self)@.push(x));
            true
        } else {
            false
        }
    }

    /// Keeps the points from `lo` to `hi`, in their order, and drops the
    /// others.
    pub fn retain_within(&mut self, lo: Double, hi: Double)
        ensures
            final(self)@ == old(self)@.filter(|x: Double| spec_within(x, lo, hi)),
    {
        self.raw_retain_within(lo, hi);
        proof {
            lemma_filter_bits(points_bits(*old(self)), lo, hi);
        }
    }

    /// The points of `v`, in the same order, as far as a vector may hold
    /// them.
    pub fn from_vec(v: &Vec<Double>) -> (p: Points)
        ensures
            v@.len() <= POINTS_LIMIT ==> p@ == v@,
            v@.len() > POINTS_LIMIT ==> p@ == v@.subrange(0, POINTS_LIMIT as int),
    {
        let mut p = Points::with_capacity(v.len());
        let mut k: usize = 0;
        while k < v.len() && k < POINTS_LIMIT
            invariant
                k <= v@.len(),
                k <= POINTS_LIMIT,
                p@ == v@.subrange(0, k as int),
            decreases v@.len() - k,
        {
            p.push(v[k]);
            k += 1;
            assert(p@ =~= v@.subrange(0, k as int));
        }
        assert(v@.len() <= POINTS_LIMIT ==> v@.subrange(0, k as int) =~= v@);
        p
    }

    /// The points, in the same order, in a `Vec`.
    pub fn to_vec(&self) -> (v: Vec<Double>)
        ensures
            v@ == self@,
    {
        let n = self.len();
        let mut v: Vec<Double> = Vec::new();
        let mut k: usize = 0;
        while k < n
            invariant
                n == self@.len(),
                k <= n,
                v@ == self@.subrange(0, k as int),
            decreases n - k,
        {
            v.push(self.get(k));
            k += 1;
            assert(v@ =~= self@.subrange(0, k as int));
        }
        assert(self@.subrange(0, n as int) =~= self@);
        v
    }
}

/// Whether `a` comes strictly before `b`: whether it is less, or, in
/// descending order, greater.
pub open spec fn spec_precedes(a: Double, b: Double, descending: bool) -> bool {
    if descending {
        b.lt(a)
    } else {
        a.lt(b)
    }
}

/// Whether `a` comes strictly before `b`: whether it is less, or, in
/// descending order, greater.
#[verifier::when_used_as_spec(spec_precedes)]
pub fn precedes(a: Double, b: Double, descending: bool) -> (r: bool)
    ensures
        r == spec_precedes(a, b, descending),
{
    if descending {
        b.lt(a)
    } else {
        a.lt(b)
    }
}

/// From position `from` on, no point comes strictly before an earlier one.
pub open spec fn ordered(s: Seq<Double>, from: int, descending: bool) -> bool {
    forall|i: int, j: int| from <= i < j < s.len() ==> !precedes(s[j], s[i], descending)
}

/// From position `from` on, no point is a NaN.
pub open spec fn no_nan_from(s: Seq<Double>, from: int) -> bool {
    forall|i: int| from <= i < s.len() ==> !(#[trigger] s[i]).is_nan()
}

/// The position at which insertion lands the point `target`, when it has
/// come down to the position `j` of the points `s`: it goes further down,
/// but not below `start`, while the point below it does not precede it.
pub open spec fn landing(s: Seq<Double>, start: int, j: int, target: Double, descending: bool) -> int
    decreases j,
{
    if j > start && j > 0 && !precedes(s[j - 1], target, descending) {
        landing(s, start, j - 1, target, descending)
    } else {
        j
    }
}

/// The points `s` with the point at `sp` moved down to the position `j`.
pub open spec fn landed(s: Seq<Double>, sp: int, j: int) -> Seq<Double> {
    Seq::new(
        s.len(),
        |k: int|
            if k < j {
                s[k]
            } else if k == j {
                s[sp]
            } else if k <= sp {
                s[k - 1]
            } else {
                s[k]
            },
    )
}

/// What insertion makes of the first `n` points of `s`, of which those from
/// `start` to `sp - 1` are in place: the point at `sp` lands among them, and
/// so on with the points after it.
pub open spec fn inserted(s: Seq<Double>, start: int, sp: int, n: int, descending: bool) -> Seq<
    Double,
>
    decreases n - sp,
{
    if sp < 0 || sp >= n {
        s
    } else {
        inserted(
            landed(s, sp, landing(s, start, sp, s[sp], descending)),
            start,
            sp + 1,
            n,
            descending,
        )
    }
}

/// Sorts the points from position `start` on by insertion, in ascending or
/// descending order: see `inserted`. The earlier points stay where they are.
/// Without a NaN among the points to sort, they end up `ordered`.
pub fn insert_sort(p: &mut Points, start: usize, descending: bool)
    ensures
        final(p)@ == inserted(
            old(p)@,
            start as int,
            start + 1,
            old(p)@.len() as int,
            descending,
        ),
        final(p)@.len() == old(p)@.len(),
        final(p)@.to_multiset() == old(p)@.to_multiset(),
        forall|k: int| 0 <= k < start && k < old(p)@.len() ==> final(p)@[k] == old(p)@[k],
        no_nan_from(old(p)@, start as int) ==> ordered(final(p)@, start as int, descending)
            && no_nan_from(final(p)@, start as int),
{
    let n = p.len();
    if n <= start {
        return ;
    }
    let ghost clean = no_nan_from(old(p)@, start as int);
    let mut sp = start + 1;
    while sp < n
        invariant
            start < sp <= n,
            n == p@.len(),
            n == old(p)@.len(),
            p@.to_multiset() == old(p)@.to_multiset(),
            inserted(p@, start as int, sp as int, n as int, descending) == inserted(
                old(p)@,
                start as int,
                start + 1,
                n as int,
                descending,
            ),
            forall|k: int| 0 <= k < start ==> p@[k] == old(p)@[k],
            clean ==> no_nan_from(p@, start as int),
            clean ==> forall|i: int, j: int|
                start <= i < j < sp ==> !precedes(p@[j], p@[i], descending),
        decreases n - sp,
    {
        let target = p.get(sp);
        let ghost before = p@;
        let mut j = sp;
        assert(p@.update(sp as int, target) =~= p@);
        while j > start && !precedes(p.get(j - 1), target, descending)
            invariant
                start <= j <= sp < n,
                n == p@.len(),
                n == before.len(),
                target == before[sp as int],
                landing(before, start as int, j as int, target, descending) == landing(
                    before,
                    start as int,
                    sp as int,
                    target,
                    descending,
                ),
                p@.update(j as int, target).to_multiset() == before.to_multiset(),
                forall|k: int| 0 <= k < j ==> p@[k] == before[k],
                forall|k: int| j < k <= sp ==> p@[k] == before[k - 1],
                forall|k: int| sp < k < n ==> p@[k] == before[k],
                clean ==> no_nan_from(before, start as int),
                clean ==> forall|k: int| j < k <= sp ==> !precedes(p@[k], target, descending),
            decreases j,
        {
            let ghost cur = p@;
            let moved = p.get(j - 1);
            p.set(j, moved);
            proof {
                let g0 = cur.update(j as int, target);
                let g1 = p@.update(j - 1, target);
                // g1 is g0 with the entries at j - 1 and j exchanged
                to_multiset_update(g0, j - 1, target);
                to_multiset_update(g0.update(j - 1, target), j as int, moved);
                assert(g0.update(j - 1, target).update(j as int, moved) =~= g1);
                assert(g0[j - 1] == moved);
                assert(g0.update(j - 1, target)[j as int] == target);
                assert(g0.to_multiset().count(moved) > 0) by {
                    vstd::seq_lib::to_multiset_contains(g0, moved);
                    assert(g0.contains(moved));
                }
                assert(g1.to_multiset() =~= g0.to_multiset()) by {
                    broadcast use vstd::multiset::group_multiset_axioms;

                }
            }
            j -= 1;
        }
        p.set(j, target);
        proof {
            let after = p@;
            assert(j == landing(before, start as int, sp as int, target, descending));
            assert(after =~= landed(before, sp as int, j as int));
            if clean {
                assert forall|i: int| start <= i < n implies !(#[trigger] after[i]).is_nan() by {
                    if i < j {
                        assert(after[i] == before[i]);
                    } else if i == j {
                        assert(target == before[sp as int]);
                    } else if i <= sp {
                        assert(after[i] == before[i - 1]);
                    } else {
                        assert(after[i] == before[i]);
                    }
                }
                assert forall|a: int, b: int| start <= a < b < sp + 1 implies !precedes(
                    after[b],
                    after[a],
                    descending,
                ) by {
                    let aa = if a < j {
                        a
                    } else if a == j {
                        sp as int
                    } else {
                        a - 1
                    };
                    let bb = if b < j {
                        b
                    } else if b == j {
                        sp as int
                    } else {
                        b - 1
                    };
                    assert(after[a] == before[aa]);
                    assert(after[b] == before[bb]);
                    assert(!before[aa].is_nan());
                    assert(!before[bb].is_nan());
                    if a != j && b != j {
                        assert(!precedes(before[bb], before[aa], descending));
                    } else if a == j {
                        assert(!precedes(after[b], target, descending));
                    } else {
                        // b == j: the scan stopped at j
                        if j > start {
                            assert(precedes(before[j - 1], target, descending));
                            if a < j - 1 {
                                assert(!precedes(before[j - 1], before[a], descending));
                            }
                        }
                    }
                }
            }
        }
        sp += 1;
    }
}

/// How often `x` occurs in what a filter keeps: as often as before where the
/// filter keeps it, and never where it does not.
pub proof fn lemma_filter_count(s: Seq<Double>, pred: spec_fn(Double) -> bool, x: Double)
    ensures
        s.filter(pred).to_multiset().count(x) == if pred(x) {
            s.to_multiset().count(x)
        } else {
            0
        },
    decreases s.len(),
{
    reveal(Seq::filter);
    if s.len() == 0 {
        assert(s.filter(pred) =~= s);
        assert(s.to_multiset().count(x) == 0) by {
            broadcast use vstd::seq_lib::to_multiset_len;

            assert(s.to_multiset().len() == 0);
            if s.to_multiset().count(x) > 0 {
                vstd::seq_lib::to_multiset_contains(s, x);
                assert(s.contains(x));
            }
        }
    } else {
        let init = s.drop_last();
        let last = s.last();
        lemma_filter_count(init, pred, x);
        assert(s =~= init.push(last));
        vstd::seq_lib::to_multiset_build(init, last);
        if pred(last) {
            vstd::seq_lib::to_multiset_build(init.filter(pred), last);
        }
    }
}

/// What a filter keeps of ordered points is ordered.
pub proof fn lemma_filter_ordered(s: Seq<Double>, pred: spec_fn(Double) -> bool, descending: bool)
    requires
        ordered(s, 0, descending),
    ensures
        ordered(s.filter(pred), 0, descending),
    decreases s.len(),
{
    reveal(Seq::filter);
    if s.len() > 0 {
        let init = s.drop_last();
        let last = s.last();
        assert(ordered(init, 0, descending)) by {
            assert forall|i: int, j: int| 0 <= i < j < init.len() implies !precedes(
                init[j],
                init[i],
                descending,
            ) by {
                assert(init[i] == s[i] && init[j] == s[j]);
            }
        }
        lemma_filter_ordered(init, pred, descending);
        if pred(last) {
            let f = init.filter(pred);
            assert forall|i: int, j: int| 0 <= i < j < f.push(last).len() implies !precedes(
                f.push(last)[j],
                f.push(last)[i],
                descending,
            ) by {
                if j == f.len() {
                    init.lemma_filter_contains_rev(pred, f[i]);
                    let k = choose|k: int| 0 <= k < init.len() && init[k] == f[i];
                    assert(s[k] == f[i]);
                    assert(!precedes(s[s.len() - 1], s[k], descending));
                }
            }
        }
    }
}

/// The ends of the pieces into which the points `pts` cut `range`: the
/// beginning of the range and the points, sorted by insertion after it in
/// the direction of the range; of these the ones within the range; and the
/// end of the range.
pub open spec fn cut(range: Range, pts: Seq<Double>) -> Seq<Double> {
    inserted(
        seq![range.begin] + pts,
        1,
        2,
        pts.len() as int + 1,
        !range.begin.lt(range.end),
    ).filter(
        |x: Double| spec_within(x, range.lower(), range.upper()),
    ).push(range.end)
}

/// The ends of the pieces into which singular points cut a range: the
/// beginning of the range, then the points that lie within the range, sorted
/// in the direction of the range, then its end: see `cut`. The points come
/// out sorted where none of them is a NaN.
pub fn make_sorted_points(range: &Range, pts: &Points) -> (r: Points)
    requires
        pts@.len() + 2 <= POINTS_LIMIT,
        range.wf(),
    ensures
        r@ == cut(*range, pts@),
        2 <= r@.len() <= pts@.len() + 2,
        r@.len() == pts@.filter(|x: Double| spec_within(x, range.lower(), range.upper())).len() + 2,
        r@.first() == range.begin,
        r@.last() == range.end,
        r@.subrange(1, r@.len() - 1).to_multiset() == pts@.filter(
            |x: Double| spec_within(x, range.lower(), range.upper()),
        ).to_multiset(),
        no_nan_from(pts@, 0) ==> ordered(
            r@.subrange(1, r@.len() - 1),
            0,
            !range.begin.lt(range.end),
        ),
{
    let ascending = range.begin.lt(range.end);
    let (min, max) = if ascending {
        (range.begin, range.end)
    } else {
        (range.end, range.begin)
    };
    let n = pts.len();
    let mut pts2 = Points::with_capacity(n + 2);
    pts2.push(range.begin);
    let mut k: usize = 0;
    while k < n
        invariant
            k <= n,
            n == pts@.len(),
            n + 2 <= POINTS_LIMIT,
            pts2@ == seq![range.begin] + pts@.subrange(0, k as int),
        decreases n - k,
    {
        pts2.push(pts.get(k));
        k += 1;
        assert(pts2@ =~= seq![range.begin] + pts@.subrange(0, k as int));
    }
    assert(pts@.subrange(0, n as int) =~= pts@);
    let ghost unsorted = pts2@;
    insert_sort(&mut pts2, 1, !ascending);
    let ghost sorted = pts2@;
    pts2.retain_within(min, max);
    let ghost kept = pts2@;
    proof {
        kept.lemma_filter_len(|x: Double| spec_within(x, min, max));
    }
    pts2.push(range.end);
    proof {
        let pred = |x: Double| spec_within(x, min, max);
        assert(min == range.lower() && max == range.upper());
        assert(unsorted[0] == range.begin);
        assert(sorted[0] == range.begin);
        assert(pred(range.begin));
        let tail = sorted.subrange(1, sorted.len() as int);
        assert(sorted =~= seq![range.begin] + tail);
        tail.lemma_filter_prepend(range.begin, pred);
        sorted.lemma_filter_len(pred);
        let mid = tail.filter(pred);
        assert(kept =~= seq![range.begin] + mid);
        assert(pts2@ =~= (seq![range.begin] + mid).push(range.end));
        assert(kept == sorted.filter(pred));
        assert(unsorted == seq![range.begin] + pts@);
        assert(pts2@ =~= cut(*range, pts@));
        assert(pts2@.subrange(1, pts2@.len() - 1) =~= mid);
        // the points to sort and the sorted points are the same multiset
        vstd::seq_lib::lemma_multiset_commutative(seq![range.begin], tail);
        vstd::seq_lib::lemma_multiset_commutative(seq![range.begin], pts@);
        assert forall|x: Double| tail.to_multiset().count(x) == pts@.to_multiset().count(x) by {
            assert(sorted.to_multiset().count(x) == unsorted.to_multiset().count(x));
        }
        assert(mid.to_multiset() =~= pts@.filter(pred).to_multiset()) by {
            assert forall|x: Double| mid.to_multiset().count(x) == pts@.filter(
                pred,
            ).to_multiset().count(x) by {
                lemma_filter_count(tail, pred, x);
                lemma_filter_count(pts@, pred, x);
            }
        }
        if no_nan_from(pts@, 0) {
            assert(no_nan_from(unsorted, 1)) by {
                assert forall|i: int| 1 <= i < unsorted.len() implies !(
                #[trigger] unsorted[i]).is_nan() by {
                    assert(unsorted[i] == pts@[i - 1]);
                }
            }
            assert(ordered(tail, 0, !ascending)) by {
                assert forall|i: int, j: int| 0 <= i < j < tail.len() implies !precedes(
                    tail[j],
                    tail[i],
                    !ascending,
                ) by {
                    assert(tail[i] == sorted[i + 1] && tail[j] == sorted[j + 1]);
                }
            }
            lemma_filter_ordered(tail, pred, !ascending);
        }
        vstd::seq_lib::to_multiset_len(mid);
        vstd::seq_lib::to_multiset_len(pts@.filter(pred));
    }
    pts2
}

} // verus!
