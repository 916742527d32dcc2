//! The list of subranges that an adaptive algorithm has evaluated, kept in
//! order of decreasing error estimate.

use vstd::prelude::*;
use vstd::set_lib::{lemma_int_range, lemma_subset_equality, set_int_range};
use crate::float::{adds_up, is_total, Double, Float};
use crate::single::common::Range;

verus! {

/// A subrange with the estimate of the integral over it.
#[derive(Clone, Copy, Debug, PartialEq, Eq)]
pub struct SubRangeInfo {
    /// Subrange
    pub range: Range,
    /// Result of Gauss-Kronrod integration for subrange
    pub estimate: Double,
    /// Absolute estimation error
    pub delta: Double,
    /// Recursion depth of subrange
    pub level: usize,
}

impl SubRangeInfo {
    pub fn new(range: Range, estimate: Double, delta: Double, level: usize) -> (r: Self)
        ensures
            r == (SubRangeInfo { range, estimate, delta, level }),
    {
        Self { range, estimate, delta, level }
    }
}

/// Every entry of `s` is below `bound`.
pub open spec fn below(s: Seq<usize>, bound: int) -> bool {
    forall|k: int| 0 <= k < s.len() ==> #[trigger] s[k] < bound
}

/// No entry of `s` is `v`.
pub open spec fn avoids(s: Seq<usize>, v: usize) -> bool {
    forall|k: int| 0 <= k < s.len() ==> #[trigger] s[k] != v
}

/// No two entries of `s` are equal.
pub open spec fn distinct(s: Seq<usize>) -> bool {
    forall|j: int, k: int| 0 <= j < k < s.len() ==> #[trigger] s[j] != #[trigger] s[k]
}

/// `s` lists every index below its length exactly once.
pub open spec fn is_permutation(s: Seq<usize>) -> bool {
    below(s, s.len() as int) && distinct(s)
}

/// The order key of the error estimate of the record that `s[k]` names.
pub open spec fn key_at(recs: Seq<SubRangeInfo>, s: Seq<usize>, k: int) -> int {
    recs[s[k] as int].delta.key()
}

/// Along the first `upto` entries of `s`, leaving out the one at `hole`, the
/// error estimates do not increase.
pub open spec fn descending_except(
    recs: Seq<SubRangeInfo>,
    s: Seq<usize>,
    hole: int,
    upto: int,
) -> bool {
    forall|j: int, k: int|
        0 <= j < k < upto && j != hole && k != hole ==> #[trigger] key_at(recs, s, k)
            <= #[trigger] key_at(recs, s, j)
}

/// No record has a NaN for its error estimate.
pub open spec fn no_nan_delta(recs: Seq<SubRangeInfo>) -> bool {
    forall|k: int| 0 <= k < recs.len() ==> !(#[trigger] recs[k]).delta.is_nan()
}

/// Of two records, the one with the larger error estimate; the first where
/// neither is larger.
pub open spec fn larger(s1: SubRangeInfo, s2: SubRangeInfo) -> SubRangeInfo {
    if s1.delta.lt(s2.delta) {
        s2
    } else {
        s1
    }
}

/// Of two records, the one that `larger` does not return.
pub open spec fn smaller(s1: SubRangeInfo, s2: SubRangeInfo) -> SubRangeInfo {
    if s1.delta.lt(s2.delta) {
        s1
    } else {
        s2
    }
}

/// A permutation of the indices below `s.len()` names each of them.
pub proof fn lemma_permutation_onto(s: Seq<usize>, v: int)
    requires
        is_permutation(s),
        0 <= v < s.len(),
    ensures
        exists|k: int| 0 <= k < s.len() && #[trigger] s[k] == v,
{
    let t = s.map_values(|x: usize| x as int);
    assert(t.no_duplicates()) by {
        assert forall|i: int, j: int| 0 <= i < t.len() && 0 <= j < t.len() && i != j implies t[i]
            != t[j] by {
            if i < j {
                assert(s[i] != s[j]);
            } else {
                assert(s[j] != s[i]);
            }
        }
    }
    t.unique_seq_to_set();
    let n = s.len() as int;
    lemma_int_range(0, n);
    assert(t.to_set().subset_of(set_int_range(0, n))) by {
        assert forall|x: int| t.to_set().contains(x) implies set_int_range(0, n).contains(x) by {
            let i = choose|i: int| 0 <= i < t.len() && t[i] == x;
            assert(s[i] < s.len());
        }
    }
    vstd::set_lib::lemma_len_subset(t.to_set(), set_int_range(0, n));
    lemma_subset_equality(t.to_set(), set_int_range(0, n));
    assert(set_int_range(0, n).contains(v));
    assert(t.to_set().contains(v));
    let k = choose|k: int| 0 <= k < t.len() && t[k] == v;
    assert(s[k] == v);
}

/// A permutation without one of its entries keeps distinct entries, none of
/// them the one that was taken out.
pub proof fn lemma_remove_distinct(s: Seq<usize>, i: int)
    requires
        is_permutation(s),
        0 <= i < s.len(),
    ensures
        s.remove(i).len() == s.len() - 1,
        below(s.remove(i), s.len() as int),
        distinct(s.remove(i)),
        avoids(s.remove(i), s[i]),
{
    let t = s.remove(i);
    s.remove_ensures(i);
    assert forall|k: int| 0 <= k < t.len() implies #[trigger] t[k] < s.len() && t[k] != s[i] by {
        if k < i {
            assert(t[k] == s[k]);
            assert(s[k] != s[i]);
        } else {
            assert(t[k] == s[k + 1]);
            assert(s[i] != s[k + 1]);
        }
    }
    assert forall|j: int, k: int| 0
        <= j < k < t.len() implies #[trigger] t[j] != #[trigger] t[k] by {
        let jj = if j < i {
            j
        } else {
            j + 1
        };
        let kk = if k < i {
            k
        } else {
            k + 1
        };
        assert(t[j] == s[jj] && t[k] == s[kk]);
        assert(s[jj] != s[kk]);
    }
}

/// Distinct entries below a bound, with one more entry below the bound that
/// was not among them, are distinct entries below the bound; where they are
/// as many as the bound, they are a permutation.
pub proof fn lemma_insert_distinct(t: Seq<usize>, j: int, v: usize, bound: int)
    requires
        below(t, bound),
        distinct(t),
        avoids(t, v),
        v < bound,
        0 <= j <= t.len(),
    ensures
        t.insert(j, v).len() == t.len() + 1,
        below(t.insert(j, v), bound),
        distinct(t.insert(j, v)),
        t.len() + 1 == bound ==> is_permutation(t.insert(j, v)),
{
    let u = t.insert(j, v);
    t.insert_ensures(j, v);
    assert forall|k: int| 0 <= k < u.len() implies #[trigger] u[k] < bound by {
        if k < j {
            assert(u[k] == t[k]);
        } else if k > j {
            assert(u[k] == t[k - 1]);
        }
    }
    assert forall|a: int, b: int| 0
        <= a < b < u.len() implies #[trigger] u[a] != #[trigger] u[b] by {
        let aa = if a < j {
            a
        } else {
            a - 1
        };
        let bb = if b < j {
            b
        } else {
            b - 1
        };
        if a != j {
            assert(u[a] == t[aa]);
        }
        if b != j {
            assert(u[b] == t[bb]);
        }
        if a != j && b != j {
            assert(t[aa] != t[bb]);
        }
    }
}

/// An order along which the error estimates do not increase but for one
/// entry does not increase without that entry.
pub proof fn lemma_remove_descending(recs: Seq<SubRangeInfo>, s: Seq<usize>, i: int)
    requires
        0 <= i < s.len(),
        descending_except(recs, s, i, s.len() as int),
    ensures
        descending_except(recs, s.remove(i), -1, s.len() - 1),
{
    let t = s.remove(i);
    s.remove_ensures(i);
    assert forall|a: int, b: int| 0 <= a < b < t.len() implies #[trigger] key_at(recs, t, b)
        <= #[trigger] key_at(recs, t, a) by {
        let aa = if a < i {
            a
        } else {
            a + 1
        };
        let bb = if b < i {
            b
        } else {
            b + 1
        };
        assert(t[a] == s[aa] && t[b] == s[bb]);
        assert(key_at(recs, s, bb) <= key_at(recs, s, aa));
    }
}

/// An entry that is inserted where the error estimates before it are not
/// smaller than its own and those after it are not larger leaves the error
/// estimates not increasing.
pub proof fn lemma_insert_descending(recs: Seq<SubRangeInfo>, t: Seq<usize>, j: int, v: usize)
    requires
        0 <= j <= t.len(),
        descending_except(recs, t, -1, t.len() as int),
        forall|k: int| 0 <= k < j ==> #[trigger] key_at(recs, t, k) >= recs[v as int].delta.key(),
        forall|k: int|
            j <= k < t.len() ==> #[trigger] key_at(recs, t, k) <= recs[v as int].delta.key(),
    ensures
        descending_except(recs, t.insert(j, v), -1, t.len() as int + 1),
{
    let u = t.insert(j, v);
    t.insert_ensures(j, v);
    assert forall|a: int, b: int| 0 <= a < b < u.len() implies #[trigger] key_at(recs, u, b)
        <= #[trigger] key_at(recs, u, a) by {
        let aa = if a < j {
            a
        } else {
            a - 1
        };
        let bb = if b < j {
            b
        } else {
            b - 1
        };
        if a != j {
            assert(u[a] == t[aa]);
            assert(key_at(recs, u, a) == key_at(recs, t, aa));
        }
        if b != j {
            assert(u[b] == t[bb]);
            assert(key_at(recs, u, b) == key_at(recs, t, bb));
        }
        if a != j && b != j {
            assert(key_at(recs, t, bb) <= key_at(recs, t, aa));
        }
    }
}

/// An order in which the last entry of `o` stands at `rise` among the other
/// entries of `o` is those entries with the last inserted at `rise`.
proof fn lemma_inserted_last(o: Seq<usize>, cur: Seq<usize>, rise: int)
    requires
        o.len() >= 1,
        cur.len() == o.len(),
        0 <= rise < o.len(),
        forall|k: int| 0 <= k < rise ==> cur[k] == o[k],
        cur[rise] == o.last(),
        forall|k: int| rise < k < o.len() ==> cur[k] == o[k - 1],
    ensures
        cur == o.take(o.len() - 1).insert(rise, o.last()),
{
    let placed = o.take(o.len() - 1);
    let result = placed.insert(rise, o.last());
    placed.insert_ensures(rise, o.last());
    assert forall|k: int| 0 <= k < cur.len() implies cur[k] == result[k] by {
        if k < rise {
            assert(result[k] == placed[k]);
        } else if k > rise {
            assert(result[k] == placed[k - 1]);
        }
    }
    assert(cur =~= result);
}

/// Moves the entry at `nrmax` of `order` up, past every predecessor whose
/// record has a smaller error estimate than `delta`, and returns its new
/// position. The last entry of `order` stays where it is.
fn raise_entry(
    order: &mut Vec<usize>,
    recs: &Vec<SubRangeInfo>,
    nrmax: usize,
    delta: Double,
) -> (up: usize)
    requires
        old(order)@.len() == recs@.len(),
        nrmax < old(order)@.len() - 1,
        below(old(order)@, recs@.len() as int),
    ensures
        final(order)@.len() == old(order)@.len(),
        below(final(order)@, recs@.len() as int),
        up == WorkSpace::raised(recs@, old(order)@.take(old(order)@.len() - 1), nrmax as int, delta),
        up <= nrmax,
        final(order)@.take(old(order)@.len() - 1) == old(order)@.take(
            old(order)@.len() - 1,
        ).remove(nrmax as int).insert(up as int, old(order)@[nrmax as int]),
        final(order)@.last() == old(order)@.last(),
{
    let n = order.len();
    let changed = order[nrmax];
    let ghost o = order@;
    let ghost before = o.take(n - 1);
    let mut up = nrmax;
    while up > 0 && delta.gt(recs[order[up - 1]].delta)
        invariant
            order@.len() == n,
            o.len() == n,
            n == recs@.len(),
            up <= nrmax < n - 1,
            below(o, n as int),
            forall|k: int| 0 <= k < up ==> order@[k] == o[k],
            forall|k: int| up < k <= nrmax ==> order@[k] == o[k - 1],
            forall|k: int| nrmax < k < n ==> order@[k] == o[k],
            WorkSpace::raised(recs@, o, nrmax as int, delta) == WorkSpace::raised(
                recs@,
                o,
                up as int,
                delta,
            ),
        decreases up,
    {
        let moved = order[up - 1];
        order[up] = moved;
        up -= 1;
    }
    order[up] = changed;
    proof {
        assert(WorkSpace::raised(recs@, o, up as int, delta) == up);
        WorkSpace::lemma_raised_prefix(recs@, o, before, nrmax as int, delta);
        let rest = before.remove(nrmax as int);
        before.remove_ensures(nrmax as int);
        rest.insert_ensures(up as int, changed);
        let moved = rest.insert(up as int, changed);
        assert forall|k: int| 0 <= k < n - 1 implies order@[k] == moved[k] by {
            if k < up {
                assert(moved[k] == rest[k]);
            } else if k > up {
                assert(moved[k] == rest[k - 1]);
                if k <= nrmax {
                    assert(rest[k - 1] == before[k - 1]);
                } else {
                    assert(rest[k - 1] == before[k]);
                }
            }
        }
        assert(order@.take(n - 1) =~= moved);
        assert forall|k: int| 0 <= k < n implies #[trigger] order@[k] < n by {
            if k < up {
                assert(order@[k] == o[k]);
            } else if k == up {
                assert(changed == o[nrmax as int]);
            } else if k <= nrmax {
                assert(order@[k] == o[k - 1]);
            } else {
                assert(order@[k] == o[k]);
            }
        }
    }
    up
}

/// Moves the entry at `from` of `order` down, past every successor before
/// the last entry whose record has a larger error estimate than `delta`, and
/// returns its new position. The last entry of `order` stays where it is.
fn lower_entry(
    order: &mut Vec<usize>,
    recs: &Vec<SubRangeInfo>,
    from: usize,
    delta: Double,
) -> (place: usize)
    requires
        old(order)@.len() == recs@.len(),
        from < old(order)@.len() - 1,
        below(old(order)@, recs@.len() as int),
    ensures
        final(order)@.len() == old(order)@.len(),
        below(final(order)@, recs@.len() as int),
        place == WorkSpace::lowered(
            recs@,
            old(order)@.take(old(order)@.len() - 1).remove(from as int),
            from as int,
            delta,
        ),
        from <= place < old(order)@.len() - 1,
        final(order)@.take(old(order)@.len() - 1) == old(order)@.take(
            old(order)@.len() - 1,
        ).remove(from as int).insert(place as int, old(order)@[from as int]),
        final(order)@.last() == old(order)@.last(),
{
    let n = order.len();
    let last = n - 1;
    let changed = order[from];
    let ghost o = order@;
    let ghost before = o.take(n - 1);
    let ghost rest = before.remove(from as int);
    proof {
        before.remove_ensures(from as int);
        assert forall|k: int| from < k < last implies o[k] == rest[k - 1] by {
            assert(rest[k - 1] == before[k]);
        }
        assert forall|k: int| 0 <= k < from implies o[k] == rest[k] by {
            assert(rest[k] == before[k]);
        }
    }
    let mut i = from + 1;
    while i < last && delta.lt(recs[order[i]].delta)
        invariant
            order@.len() == n,
            o.len() == n,
            n == recs@.len(),
            last == n - 1,
            from < i <= last,
            rest.len() == last - 1,
            below(o, n as int),
            below(order@, n as int),
            order@[last as int] == o[last as int],
            forall|k: int| 0 <= k < from ==> order@[k] == o[k],
            forall|k: int| from <= k < i - 1 ==> order@[k] == o[k + 1],
            forall|k: int| i <= k < n ==> order@[k] == o[k],
            forall|k: int| from < k < last ==> o[k] == rest[k - 1],
            WorkSpace::lowered(recs@, rest, from as int, delta) == WorkSpace::lowered(
                recs@,
                rest,
                i - 1,
                delta,
            ),
        decreases last - i,
    {
        proof {
            assert(order@[i as int] == o[i as int]);
            assert(o[i as int] == rest[i - 1]);
        }
        let ghost prev = order@;
        let moved = order[i];
        order[i - 1] = moved;
        proof {
            assert forall|k: int| 0 <= k < n implies #[trigger] order@[k] < n by {
                if k != i - 1 {
                    assert(order@[k] == prev[k]);
                }
            }
        }
        i += 1;
    }
    order[i - 1] = changed;
    proof {
        let place = i - 1;
        if i < last {
            assert(o[i as int] == rest[place]);
        }
        assert(WorkSpace::lowered(recs@, rest, place, delta) == place);
        rest.insert_ensures(place, changed);
        let moved = rest.insert(place, changed);
        assert forall|k: int| 0 <= k < n - 1 implies order@[k] == moved[k] by {
            if k < place {
                assert(moved[k] == rest[k]);
                if k < from {
                    assert(rest[k] == before[k]);
                } else {
                    assert(rest[k] == before[k + 1]);
                }
            } else if k > place {
                assert(moved[k] == rest[k - 1]);
                assert(rest[k - 1] == before[k]);
            }
        }
        assert(order@.take(n - 1) =~= moved);
        assert forall|k: int| 0 <= k < n implies #[trigger] order@[k] < n by {
            if k < from {
                assert(order@[k] == o[k]);
            } else if k < place {
                assert(order@[k] == o[k + 1]);
            } else if k == place {
                assert(changed == o[from as int]);
            } else {
                assert(order@[k] == o[k]);
            }
        }
    }
    i - 1
}

/// Moves the last entry of `order` up, past every predecessor after `floor`
/// whose record has an error estimate that is not larger than `delta`.
fn settle_last(order: &mut Vec<usize>, recs: &Vec<SubRangeInfo>, floor: usize, delta: Double)
    requires
        old(order)@.len() == recs@.len(),
        floor < old(order)@.len() - 1,
        below(old(order)@, recs@.len() as int),
    ensures
        final(order)@.len() == old(order)@.len(),
        final(order)@ == old(order)@.take(old(order)@.len() - 1).insert(
            WorkSpace::settled(
                recs@,
                old(order)@.take(old(order)@.len() - 1),
                old(order)@.len() - 1,
                floor as int,
                delta,
            ),
            old(order)@.last(),
        ),
{
    let n = order.len();
    let last = n - 1;
    let new = order[last];
    let ghost o = order@;
    let ghost placed = o.take(n - 1);
    let mut j = last;
    while j > floor && delta.ge(recs[order[j - 1]].delta)
        invariant
            order@.len() == n,
            o.len() == n,
            n == recs@.len(),
            last == n - 1,
            floor <= j <= last,
            placed == o.take(n - 1),
            below(o, n as int),
            below(order@, n as int),
            forall|k: int| 0 <= k < j ==> order@[k] == o[k],
            forall|k: int| j < k <= last ==> order@[k] == o[k - 1],
            WorkSpace::settled(recs@, placed, last as int, floor as int, delta)
                == WorkSpace::settled(recs@, placed, j as int, floor as int, delta),
        decreases j,
    {
        assert(placed[j - 1] == o[j - 1]);
        let ghost prev = order@;
        let moved = order[j - 1];
        order[j] = moved;
        proof {
            assert forall|k: int| 0 <= k < n implies #[trigger] order@[k] < n by {
                if k != j {
                    assert(order@[k] == prev[k]);
                }
            }
        }
        j -= 1;
    }
    order[j] = new;
    proof {
        if j > floor {
            assert(placed[j - 1] == o[j - 1]);
        }
        assert(WorkSpace::settled(recs@, placed, j as int, floor as int, delta) == j);
        lemma_inserted_last(o, order@, j as int);
    }
}

/// The most records that room is made for ahead of their arrival.
pub const RESERVE_LIMIT: usize = 65536;

/// The records of an adaptive integration and the order in which to refine
/// them.
#[derive(Clone, Debug)]
pub struct WorkSpace {
    /// `order[nrmax]` names the record to bisect next. `nrmax` is normally 0
    /// and is positive while an algorithm refines the larger subranges first.
    pub nrmax: usize,
    /// the record to bisect next
    pub i: usize,
    /// current maximum recursion depth
    pub maximum_level: usize,
    /// the records
    pub subranges: Vec<SubRangeInfo>,
    /// the indices of the records, by decreasing error estimate
    pub order: Vec<usize>,
}

impl WorkSpace {
    /// `order` is a permutation of the record indices, and the two cursors
    /// stay within the list.
    pub open spec fn wf(&self) -> bool {
        &&& self.order@.len() == self.subranges@.len()
        &&& is_permutation(self.order@)
        &&& self.nrmax <= self.subranges@.len()
        &&& self.i == 0 || self.i < self.subranges@.len()
    }

    /// No error estimate is a NaN, and along `order` the error estimates do
    /// not increase.
    pub open spec fn sorted(&self) -> bool {
        &&& no_nan_delta(self.subranges@)
        &&& descending_except(self.subranges@, self.order@, -1, self.order@.len() as int)
    }

    /// The cursor `i` names the record at position `nrmax` of `order`.
    pub open spec fn aligned(&self) -> bool {
        &&& self.nrmax < self.order@.len()
        &&& self.i == self.order@[self.nrmax as int]
    }

    /// No record lies deeper than `maximum_level`, which is below the number
    /// of records.
    pub open spec fn levels_bounded(&self) -> bool {
        &&& self.maximum_level <= self.subranges@.len()
        &&& forall|k: int|
            0 <= k < self.subranges@.len() ==> (#[trigger] self.subranges@[k]).level
                <= self.maximum_level
    }

    /// The position that the record at `from` of `order` moves up to when its
    /// error estimate is `delta`: it passes every predecessor with a smaller
    /// estimate, and stops at the first that is not smaller.
    pub open spec fn raised(recs: Seq<SubRangeInfo>, s: Seq<usize>, from: int, delta: Double) -> int
        decreases from,
    {
        if from > 0 && recs[s[from - 1] as int].delta.lt(delta) {
            Self::raised(recs, s, from - 1, delta)
        } else {
            from
        }
    }

    /// The position that a record with error estimate `delta` moves down to
    /// from position `from` of the order `s`: it passes every record with a
    /// larger estimate, and stops at the first that is not larger.
    pub open spec fn lowered(recs: Seq<SubRangeInfo>, s: Seq<usize>, from: int, delta: Double) -> int
        decreases s.len() - from,
    {
        if 0 <= from < s.len() && delta.lt(recs[s[from] as int].delta) {
            Self::lowered(recs, s, from + 1, delta)
        } else {
            from
        }
    }

    /// The position at which a record with error estimate `delta` comes to
    /// rest when it rises from position `from` of the order `s`: it passes
    /// every predecessor with an estimate that is not larger, but none at or
    /// before position `floor`.
    pub open spec fn settled(
        recs: Seq<SubRangeInfo>,
        s: Seq<usize>,
        from: int,
        floor: int,
        delta: Double,
    ) -> int
        decreases from,
    {
        if from > floor && 0 < from <= s.len() && delta.ge(recs[s[from - 1] as int].delta) {
            Self::settled(recs, s, from - 1, floor, delta)
        } else {
            from
        }
    }

    /// The order after the record at position `nrmax` of `order` has changed
    /// and a new record has been appended to `recs`.
    ///
    /// With a single record before, the order is that of the indices.
    /// Otherwise the changed record leaves its position and moves up as far as
    /// `raised` says, or else down as far as `lowered` says; then the new
    /// record rises from the end as far as `settled` lets it, but not past
    /// the changed record.
    #[verifier::opaque]
    pub open spec fn reordered(recs: Seq<SubRangeInfo>, order: Seq<usize>, nrmax: int) -> Seq<
        usize,
    > {
        if order.len() < 2 {
            seq![0usize, 1usize]
        } else {
            let changed = order[nrmax];
            let delta = recs[changed as int].delta;
            let rest = order.remove(nrmax);
            let up = Self::raised(recs, order, nrmax, delta);
            let place = Self::lowered(recs, rest, up, delta);
            let placed = rest.insert(place, changed);
            let new = order.len() as usize;
            let rise = Self::settled(
                recs,
                placed,
                placed.len() as int,
                place,
                recs[new as int].delta,
            );
            placed.insert(rise, new)
        }
    }

    /// The first position at or after `from` of the order `s` whose record
    /// lies above `maximum_level`, or the length of `s` if there is none.
    pub open spec fn next_shallow(
        recs: Seq<SubRangeInfo>,
        s: Seq<usize>,
        maximum_level: usize,
        from: int,
    ) -> int
        decreases s.len() - from,
    {
        if from >= s.len() {
            s.len() as int
        } else if recs[s[from] as int].level < maximum_level {
            from
        } else {
            Self::next_shallow(recs, s, maximum_level, from + 1)
        }
    }

    /// An empty workspace.
    pub fn new() -> (ws: WorkSpace)
        ensures
            ws.wf(),
            ws.sorted(),
            ws.levels_bounded(),
            ws.subranges@.len() == 0,
            ws.nrmax == 0,
            ws.i == 0,
            ws.maximum_level == 0,
    {
        WorkSpace {
            nrmax: 0,
            i: 0,
            maximum_level: 0,
            subranges: Vec::new(),
            order: Vec::new(),
        }
    }

    /// An empty workspace with room for `n` records, or for `RESERVE_LIMIT`
    /// where `n` is more: beyond that the workspace grows as records arrive.
    pub fn with_capacity(n: usize) -> (ws: WorkSpace)
        ensures
            ws.wf(),
            ws.sorted(),
            ws.levels_bounded(),
            ws.subranges@.len() == 0,
            ws.nrmax == 0,
            ws.i == 0,
            ws.maximum_level == 0,
    {
        let room = if n > RESERVE_LIMIT {
            RESERVE_LIMIT
        } else {
            n
        };
        WorkSpace {
            nrmax: 0,
            i: 0,
            maximum_level: 0,
            subranges: Vec::with_capacity(room),
            order: Vec::with_capacity(room),
        }
    }

    /// The number of records.
    pub fn size(&self) -> (n: usize)
        ensures
            n == self.subranges@.len(),
    {
        self.subranges.len()
    }

    /// Makes room for `n` more records, or for `RESERVE_LIMIT` where `n` is
    /// more: beyond that the workspace grows as records arrive. The records
    /// are untouched.
    pub fn reserve(&mut self, n: usize)
        ensures
            final(self).subranges@ == old(self).subranges@,
            final(self).order@ == old(self).order@,
            final(self).nrmax == old(self).nrmax,
            final(self).i == old(self).i,
            final(self).maximum_level == old(self).maximum_level,
    {
        let room = if n > RESERVE_LIMIT {
            RESERVE_LIMIT
        } else {
            n
        };
        self.subranges.reserve(room);
        self.order.reserve(room);
    }

    /// Removes every record and resets the cursors and the depth.
    pub fn clear(&mut self)
        ensures
            final(self).wf(),
            final(self).sorted(),
            final(self).levels_bounded(),
            final(self).subranges@.len() == 0,
            final(self).order@.len() == 0,
            final(self).nrmax == 0,
            final(self).i == 0,
            final(self).maximum_level == 0,
    {
        self.subranges.clear();
        self.order.clear();
        self.i = 0;
        self.nrmax = 0;
        self.maximum_level = 0;
    }

    /// Appends a record, and its index to the end of `order`.
    pub fn push(&mut self, subrange: SubRangeInfo)
        requires
            old(self).order@.len() == old(self).subranges@.len(),
        ensures
            final(self).subranges@ == old(self).subranges@.push(subrange),
            final(self).order@ == old(self).order@.push(old(self).order@.len() as usize),
            final(self).nrmax == old(self).nrmax,
            final(self).i == old(self).i,
            final(self).maximum_level == old(self).maximum_level,
            old(self).wf() ==> final(self).wf(),
            old(self).wf() ==> (final(self).sorted() <==> old(self).sorted()
                && !subrange.delta.is_nan() && (old(self).order@.len() > 0 ==> subrange.delta.le(
                old(self).subranges@[old(self).order@.last() as int].delta,
            ))),
    {
        let n = self.order.len();
        self.subranges.push(subrange);
        self.order.push(n);
        proof {
            let o = old(self).order@;
            let recs = old(self).subranges@;
            if old(self).wf() {
                assert forall|k: int| 0 <= k < n implies #[trigger] self.order@[k] == o[k]
                    && o[k] < n by {}
                assert(self.order@[n as int] == n);
                assert(is_permutation(self.order@)) by {
                    assert forall|j: int, k: int| 0 <= j < k < self.order@.len() implies
                        #[trigger] self.order@[j] != #[trigger] self.order@[k] by {
                        assert(self.order@[j] == o[j]);
                        if k < n {
                            assert(self.order@[k] == o[k]);
                        }
                    }
                }
                assert forall|k: int| 0 <= k < n implies key_at(self.subranges@, self.order@, k)
                    == key_at(recs, o, k) by {
                    assert(o[k] < n);
                }
                if self.sorted() {
                    assert forall|k: int| 0
                        <= k < recs.len() implies !(#[trigger] recs[k]).delta.is_nan() by {
                        assert(self.subranges@[k] == recs[k]);
                    }
                    assert forall|j: int, k: int| 0 <= j < k < n implies key_at(recs, o, k)
                        <= key_at(recs, o, j) by {
                        assert(key_at(self.subranges@, self.order@, k) <= key_at(
                            self.subranges@,
                            self.order@,
                            j,
                        ));
                    }
                    assert(!self.subranges@[n as int].delta.is_nan());
                    if n > 0 {
                        assert(key_at(self.subranges@, self.order@, n as int) <= key_at(
                            self.subranges@,
                            self.order@,
                            n - 1,
                        ));
                    }
                }
                if old(self).sorted() && !subrange.delta.is_nan() && (n > 0 ==> subrange.delta.le(
                    recs[o.last() as int].delta,
                )) {
                    assert forall|k: int| 0 <= k < self.subranges@.len() implies !(
                    #[trigger] self.subranges@[k]).delta.is_nan() by {
                        if k < n {
                            assert(self.subranges@[k] == recs[k]);
                        }
                    }
                    assert forall|j: int, k: int| 0 <= j < k < n + 1 implies key_at(
                        self.subranges@,
                        self.order@,
                        k,
                    ) <= key_at(self.subranges@, self.order@, j) by {
                        if k < n {
                            assert(key_at(recs, o, k) <= key_at(recs, o, j));
                        } else if j < n - 1 {
                            assert(key_at(recs, o, n - 1) <= key_at(recs, o, j));
                        }
                    }
                }
            }
        }
    }

    /// Restores the order after the record at position `nrmax` has changed and
    /// a new record has been appended: the changed record moves up or down to
    /// its place, then the new record is inserted from the bottom.
    fn qpsrt(&mut self)
        requires
            old(self).subranges@.len() >= 2,
            old(self).nrmax < old(self).subranges@.len() - 1,
            old(self).order@.len() == old(self).subranges@.len(),
            below(old(self).order@.take(old(self).order@.len() - 1), old(self).order@.len() - 1),
            old(self).order@[old(self).subranges@.len() - 1] == old(self).subranges@.len() - 1,
        ensures
            final(self).subranges == old(self).subranges,
            final(self).maximum_level == old(self).maximum_level,
            final(self).order@ == Self::reordered(
                old(self).subranges@,
                old(self).order@.take(old(self).subranges@.len() - 1),
                old(self).nrmax as int,
            ),
            final(self).nrmax == Self::raised(
                old(self).subranges@,
                old(self).order@.take(old(self).subranges@.len() - 1),
                old(self).nrmax as int,
                old(self).subranges@[old(self).order@[old(self).nrmax as int] as int].delta,
            ),
            final(self).nrmax <= old(self).nrmax,
            final(self).order@.len() == old(self).order@.len(),
            final(self).i == final(self).order@[final(self).nrmax as int],
    {
        let last = self.subranges.len() - 1;
        let ghost o = self.order@;
        let ghost recs = self.subranges@;
        let ghost before = o.take(last as int);
        let ghost nrmax0 = self.nrmax as int;
        let i_maxdelta = self.order[self.nrmax];
        proof {
            assert forall|k: int| 0 <= k < o.len() implies #[trigger] o[k] < o.len() by {
                if k < last {
                    assert(before[k] == o[k]);
                }
            }
            assert(before[nrmax0] == i_maxdelta);
        }

        // Fewer than three records: the order is that of the indices.
        if last < 2 {
            self.order[0] = 0;
            self.order[1] = 1;
            self.i = i_maxdelta;
            proof {
                reveal(WorkSpace::reordered);
                assert(self.order@ =~= seq![0usize, 1usize]);
                assert(before[0] < 1);
                assert(Self::raised(recs, before, 0, recs[o[0] as int].delta) == 0);
            }
            return ;
        }
        let deltamax = self.subranges[i_maxdelta].delta;
        let errmin = self.subranges[last].delta;
        let up = raise_entry(&mut self.order, &self.subranges, self.nrmax, deltamax);
        let ghost raised = self.order@;
        let place = lower_entry(&mut self.order, &self.subranges, up, deltamax);
        let ghost lowered = self.order@;
        settle_last(&mut self.order, &self.subranges, place, errmin);
        proof {
            let rest = before.remove(nrmax0);
            before.remove_ensures(nrmax0);
            rest.insert_ensures(up as int, i_maxdelta);
            // taking the moved entry out again gives the rest
            assert(raised.take(last as int).remove(up as int) =~= rest);
            assert(raised[up as int] == i_maxdelta) by {
                assert(raised.take(last as int)[up as int] == i_maxdelta);
            }
            assert(lowered.last() == last);
            Self::lemma_reordered_unfold(recs, before, nrmax0);
        }
        self.i = self.order[up];
        self.nrmax = up;
    }

    /// What `reordered` is for two records or more.
    proof fn lemma_reordered_unfold(recs: Seq<SubRangeInfo>, order: Seq<usize>, nrmax: int)
        requires
            order.len() >= 2,
        ensures
            Self::reordered(recs, order, nrmax) == ({
                let delta = recs[order[nrmax] as int].delta;
                let rest = order.remove(nrmax);
                let place = Self::lowered(
                    recs,
                    rest,
                    Self::raised(recs, order, nrmax, delta),
                    delta,
                );
                let placed = rest.insert(place, order[nrmax]);
                placed.insert(
                    Self::settled(
                        recs,
                        placed,
                        placed.len() as int,
                        place,
                        recs[order.len() as usize as int].delta,
                    ),
                    order.len() as usize,
                )
            }),
    {
        reveal(WorkSpace::reordered);
    }

    /// `raised` stops at or before its start; every record that it passes has
    /// a smaller error estimate, and the record before its stop has not.
    pub proof fn lemma_raised(recs: Seq<SubRangeInfo>, s: Seq<usize>, from: int, delta: Double)
        requires
            0 <= from,
        ensures
            0 <= Self::raised(recs, s, from, delta) <= from,
            forall|k: int|
                Self::raised(recs, s, from, delta) <= k < from
                    ==> (#[trigger] recs[s[k] as int]).delta.lt(
                    delta,
                ),
            Self::raised(recs, s, from, delta) > 0 ==> !recs[s[Self::raised(recs, s, from, delta)
                - 1] as int].delta.lt(delta),
        decreases from,
    {
        if from > 0 && recs[s[from - 1] as int].delta.lt(delta) {
            Self::lemma_raised(recs, s, from - 1, delta);
        }
    }

    /// `lowered` stops at or after its start; every record that it passes has
    /// a larger error estimate, and the record at its stop has not.
    pub proof fn lemma_lowered(recs: Seq<SubRangeInfo>, s: Seq<usize>, from: int, delta: Double)
        requires
            0 <= from <= s.len(),
        ensures
            from <= Self::lowered(recs, s, from, delta) <= s.len(),
            forall|k: int|
                from <= k < Self::lowered(recs, s, from, delta) ==> delta.lt(
                    (#[trigger] recs[s[k] as int]).delta,
                ),
            Self::lowered(recs, s, from, delta) < s.len() ==> !delta.lt(
                recs[s[Self::lowered(recs, s, from, delta)] as int].delta,
            ),
        decreases s.len() - from,
    {
        if from < s.len() && delta.lt(recs[s[from] as int].delta) {
            Self::lemma_lowered(recs, s, from + 1, delta);
        }
    }

    /// `settled` stops between its floor and its start; every record that it
    /// passes has an error estimate that is not larger, and unless it stops
    /// at the floor, the record before its stop has a larger one or a NaN.
    pub proof fn lemma_settled(
        recs: Seq<SubRangeInfo>,
        s: Seq<usize>,
        from: int,
        floor: int,
        delta: Double,
    )
        requires
            0 <= floor <= from <= s.len(),
        ensures
            floor <= Self::settled(recs, s, from, floor, delta) <= from,
            forall|k: int|
                Self::settled(recs, s, from, floor, delta) <= k < from ==> delta.ge(
                    (#[trigger] recs[s[k] as int]).delta,
                ),
            Self::settled(recs, s, from, floor, delta) > floor ==> !delta.ge(
                recs[s[Self::settled(recs, s, from, floor, delta) - 1] as int].delta,
            ),
        decreases from,
    {
        if from > floor && delta.ge(recs[s[from - 1] as int].delta) {
            Self::lemma_settled(recs, s, from - 1, floor, delta);
        }
    }

    /// Reordering a permutation gives a permutation with one index more.
    pub proof fn lemma_reordered_permutation(
        recs: Seq<SubRangeInfo>,
        order: Seq<usize>,
        nrmax: int,
    )
        requires
            is_permutation(order),
            0 <= nrmax < order.len() < usize::MAX,
        ensures
            Self::reordered(recs, order, nrmax).len() == order.len() + 1,
            is_permutation(Self::reordered(recs, order, nrmax)),
    {
        reveal(WorkSpace::reordered);
        let n = order.len() as int;
        if n >= 2 {
            let changed = order[nrmax];
            let delta = recs[changed as int].delta;
            let rest = order.remove(nrmax);
            let up = Self::raised(recs, order, nrmax, delta);
            Self::lemma_raised(recs, order, nrmax, delta);
            lemma_remove_distinct(order, nrmax);
            let place = Self::lowered(recs, rest, up, delta);
            Self::lemma_lowered(recs, rest, up, delta);
            let placed = rest.insert(place, changed);
            lemma_insert_distinct(rest, place, changed, n);
            let new = n as usize;
            let rise = Self::settled(recs, placed, n, place, recs[new as int].delta);
            Self::lemma_settled(recs, placed, n, place, recs[new as int].delta);
            assert(below(placed, n + 1) && avoids(placed, new)) by {
                assert forall|k: int| 0 <= k < placed.len() implies #[trigger] placed[k] < n + 1
                    && placed[k] != new by {
                    assert(placed[k] < n);
                }
            }
            lemma_insert_distinct(placed, rise, new, n + 1);
        }
    }

    /// Where the error estimates did not increase along `order` but for the
    /// changed record, and the new record has an error estimate that is not
    /// larger than that of the changed one, they do not increase along the
    /// new order.
    pub proof fn lemma_reordered_descending(
        recs: Seq<SubRangeInfo>,
        order: Seq<usize>,
        nrmax: int,
    )
        requires
            is_permutation(order),
            0 <= nrmax < order.len() < usize::MAX,
            recs.len() == order.len() + 1,
            no_nan_delta(recs),
            descending_except(recs, order, nrmax, order.len() as int),
            recs[order.len() as int].delta.key() <= recs[order[nrmax] as int].delta.key(),
        ensures
            descending_except(
                recs,
                Self::reordered(recs, order, nrmax),
                -1,
                order.len() as int + 1,
            ),
    {
        reveal(WorkSpace::reordered);
        let n = order.len() as int;
        let result = Self::reordered(recs, order, nrmax);
        if n < 2 {
            assert(order[0] == 0);
            assert(key_at(recs, result, 0) == recs[0].delta.key());
            assert(key_at(recs, result, 1) == recs[1].delta.key());
        } else {
            let changed = order[nrmax];
            let new = n as usize;
            let moved = Self::lemma_moved_descending(recs, order, nrmax);
            let place = moved.0;
            let placed = moved.1;
            let errmin = recs[new as int].delta;
            let ekey = errmin.key();
            let rise = Self::settled(recs, placed, n, place, errmin);
            Self::lemma_settled(recs, placed, n, place, errmin);
            // the new record lies between its neighbours
            assert forall|k: int| 0 <= k < rise implies #[trigger] key_at(recs, placed, k)
                >= ekey by {
                if rise > place {
                    assert(placed[rise - 1] < n);
                    assert(!recs[placed[rise - 1] as int].delta.is_nan());
                    assert(key_at(recs, placed, rise - 1) > ekey);
                    if k < rise - 1 {
                        assert(key_at(recs, placed, rise - 1) <= key_at(recs, placed, k));
                    }
                } else {
                    assert(placed[place] == changed);
                    assert(key_at(recs, placed, place) >= ekey);
                    if k < place {
                        assert(key_at(recs, placed, place) <= key_at(recs, placed, k));
                    }
                }
            }
            assert forall|k: int| rise <= k < n implies #[trigger] key_at(recs, placed, k)
                <= ekey by {
                assert(placed[k] < n);
                assert(errmin.ge(recs[placed[k] as int].delta));
            }
            lemma_insert_descending(recs, placed, rise, new);
        }
    }

    /// The first step of reordering: where the error estimates did not
    /// increase along `order` but for the changed record, they do not
    /// increase once the changed record has moved to its place. Returns the
    /// place and the order after the move.
    proof fn lemma_moved_descending(
        recs: Seq<SubRangeInfo>,
        order: Seq<usize>,
        nrmax: int,
    ) -> (r: (int, Seq<usize>))
        requires
            is_permutation(order),
            2 <= order.len(),
            0 <= nrmax < order.len(),
            recs.len() == order.len() + 1,
            no_nan_delta(recs),
            descending_except(recs, order, nrmax, order.len() as int),
        ensures
            r.0 == Self::lowered(
                recs,
                order.remove(nrmax),
                Self::raised(recs, order, nrmax, recs[order[nrmax] as int].delta),
                recs[order[nrmax] as int].delta,
            ),
            r.1 == order.remove(nrmax).insert(r.0, order[nrmax]),
            0 <= r.0 < order.len(),
            r.1.len() == order.len(),
            below(r.1, order.len() as int),
            r.1[r.0] == order[nrmax],
            descending_except(recs, r.1, -1, order.len() as int),
    {
        let n = order.len() as int;
        let changed = order[nrmax];
        let delta = recs[changed as int].delta;
        let dkey = delta.key();
        let rest = order.remove(nrmax);
        let up = Self::raised(recs, order, nrmax, delta);
        Self::lemma_raised(recs, order, nrmax, delta);
        lemma_remove_distinct(order, nrmax);
        lemma_remove_descending(recs, order, nrmax);
        order.remove_ensures(nrmax);
        let place = Self::lowered(recs, rest, up, delta);
        Self::lemma_lowered(recs, rest, up, delta);
        let placed = rest.insert(place, changed);
        lemma_insert_distinct(rest, place, changed, n);
        rest.insert_ensures(place, changed);
        assert(changed < n);
        assert(!delta.is_nan());
        // the changed record lies between its neighbours
        assert forall|k: int| 0 <= k < place implies #[trigger] key_at(recs, rest, k) >= dkey by {
            assert(rest[k] < n);
            assert(!recs[rest[k] as int].delta.is_nan());
            if k >= up {
                assert(delta.lt(recs[rest[k] as int].delta));
            } else {
                assert(rest[up - 1] == order[up - 1]);
                assert(!recs[order[up - 1] as int].delta.lt(delta));
                assert(key_at(recs, rest, up - 1) >= dkey);
                if k < up - 1 {
                    assert(key_at(recs, rest, up - 1) <= key_at(recs, rest, k));
                }
            }
        }
        assert forall|k: int| place <= k < n - 1 implies #[trigger] key_at(recs, rest, k)
            <= dkey by {
            assert(rest[place] < n);
            assert(!recs[rest[place] as int].delta.is_nan());
            assert(!delta.lt(recs[rest[place] as int].delta));
            assert(key_at(recs, rest, place) <= dkey);
            if k > place {
                assert(key_at(recs, rest, k) <= key_at(recs, rest, place));
            }
        }
        lemma_insert_descending(recs, rest, place, changed);
        (place, placed)
    }

    /// Whether `after` is this workspace after an `update` with `s1` and
    /// `s2`: see there.
    pub open spec fn updated(&self, s1: SubRangeInfo, s2: SubRangeInfo, after: WorkSpace) -> bool {
        &&& after.subranges@ == self.subranges@.update(self.i as int, larger(s1, s2)).push(
            smaller(s1, s2),
        )
        &&& after.maximum_level == if self.subranges@[self.i as int].level + 1
            > self.maximum_level {
            (self.subranges@[self.i as int].level + 1) as usize
        } else {
            self.maximum_level
        }
        &&& after.nrmax == Self::raised(
            after.subranges@,
            self.order@,
            self.nrmax as int,
            after.subranges@[self.order@[self.nrmax as int] as int].delta,
        )
        &&& after.order@ == Self::reordered(after.subranges@, self.order@, self.nrmax as int)
        &&& after.aligned()
    }

    /// Replaces the record under the cursor by the one of `s1` and `s2` with
    /// the larger error estimate, appends the other, raises `maximum_level` to
    /// one more than the level of the replaced record where that is deeper,
    /// and restores the order as `reordered` says. The cursors end on the
    /// record that was replaced, or on the new one where it has taken its
    /// place.
    pub fn update(&mut self, s1: SubRangeInfo, s2: SubRangeInfo)
        requires
            old(self).wf(),
            old(self).i < old(self).subranges@.len(),
            old(self).nrmax < old(self).subranges@.len(),
            old(self).subranges@.len() < usize::MAX,
            old(self).subranges@[old(self).i as int].level < usize::MAX,
        ensures
            final(self).wf(),
            final(self).aligned(),
            final(self).subranges@ == old(self).subranges@.update(
                old(self).i as int,
                larger(s1, s2),
            ).push(smaller(s1, s2)),
            final(self).maximum_level == if old(self).subranges@[old(self).i as int].level + 1
                > old(self).maximum_level {
                (old(self).subranges@[old(self).i as int].level + 1) as usize
            } else {
                old(self).maximum_level
            },
            final(self).nrmax == Self::raised(
                final(self).subranges@,
                old(self).order@,
                old(self).nrmax as int,
                final(self).subranges@[old(self).order@[old(self).nrmax as int] as int].delta,
            ),
            final(self).nrmax <= old(self).nrmax,
            final(self).order@ == Self::reordered(
                final(self).subranges@,
                old(self).order@,
                old(self).nrmax as int,
            ),
            (old(self).sorted() && old(self).aligned() && !s1.delta.is_nan()
                && !s2.delta.is_nan()) ==> final(self).sorted(),
            (old(self).levels_bounded() && s1.level
                <= old(self).subranges@[old(self).i as int].level + 1 && s2.level
                <= old(self).subranges@[old(self).i as int].level
                + 1) ==> final(self).levels_bounded(),
    {
        let n0 = self.subranges.len();
        let new_level = self.subranges[self.i].level + 1;
        let ghost recs0 = self.subranges@;
        let ghost o0 = self.order@;
        let ghost nrmax0 = self.nrmax as int;
        if s2.delta.gt(s1.delta) {
            self.subranges[self.i] = s2;
            self.subranges.push(s1);
        } else {
            self.subranges[self.i] = s1;
            self.subranges.push(s2);
        }
        self.order.push(n0);
        if new_level > self.maximum_level {
            self.maximum_level = new_level;
        }
        let ghost recs = self.subranges@;
        let ghost o = self.order@;
        proof {
            assert(recs == recs0.update(old(self).i as int, larger(s1, s2)).push(smaller(s1, s2)));
            assert forall|k: int| 0 <= k < n0 implies #[trigger] o[k] == o0[k] && o0[k] < n0 by {}
            assert(o[n0 as int] == n0);
            assert(o.take(n0 as int) =~= o0);
            assert(below(o0, n0 as int));
            if old(self).levels_bounded() && s1.level <= new_level && s2.level <= new_level {
                assert forall|k: int| 0 <= k < recs.len() implies (#[trigger] recs[k]).level
                    <= self.maximum_level by {
                    if k < n0 && k != old(self).i {
                        assert(recs[k] == recs0[k]);
                    }
                }
            }
        }
        self.qpsrt();
        proof {
            Self::lemma_reordered_permutation(recs, o0, nrmax0);
            Self::lemma_raised(recs, o0, nrmax0, recs[o0[nrmax0] as int].delta);
            if old(self).sorted() && old(self).aligned() && !s1.delta.is_nan()
                && !s2.delta.is_nan() {
                assert(no_nan_delta(recs)) by {
                    assert forall|k: int| 0
                        <= k < recs.len() implies !(#[trigger] recs[k]).delta.is_nan() by {
                        if k < n0 && k != old(self).i {
                            assert(recs[k] == recs0[k]);
                        }
                    }
                }
                assert(descending_except(recs, o0, nrmax0, n0 as int)) by {
                    assert forall|j: int, k: int|
                        0 <= j < k < n0 && j != nrmax0 && k != nrmax0 implies #[trigger] key_at(
                        recs,
                        o0,
                        k,
                    ) <= #[trigger] key_at(recs, o0, j) by {
                        if j < nrmax0 {
                            assert(o0[j] != o0[nrmax0]);
                        } else {
                            assert(o0[nrmax0] != o0[j]);
                        }
                        if k < nrmax0 {
                            assert(o0[k] != o0[nrmax0]);
                        } else {
                            assert(o0[nrmax0] != o0[k]);
                        }
                        assert(key_at(recs, o0, j) == key_at(recs0, o0, j));
                        assert(key_at(recs, o0, k) == key_at(recs0, o0, k));
                    }
                }
                assert(recs[n0 as int] == smaller(s1, s2));
                assert(recs[o0[nrmax0] as int] == larger(s1, s2));
                Self::lemma_reordered_descending(recs, o0, nrmax0);
            }
        }
    }

    /// `raised` reads only the entries of `order` before `from`.
    proof fn lemma_raised_prefix(
        recs: Seq<SubRangeInfo>,
        s: Seq<usize>,
        t: Seq<usize>,
        from: int,
        delta: Double,
    )
        requires
            0 <= from <= s.len(),
            from <= t.len(),
            forall|k: int| 0 <= k < from ==> s[k] == t[k],
        ensures
            Self::raised(recs, s, from, delta) == Self::raised(recs, t, from, delta),
        decreases from,
    {
        if from > 0 {
            Self::lemma_raised_prefix(recs, s, t, from - 1, delta);
        }
    }

    /// The position, among those from `i` to `j - 1` of the order `s`, that
    /// selection settles on after it has looked at the positions from `j`
    /// on, when `p` is its choice so far: a later position takes the place
    /// of the choice where its error estimate is no smaller.
    pub open spec fn choice(recs: Seq<SubRangeInfo>, s: Seq<usize>, j: int, p: int) -> int
        decreases s.len() - j,
    {
        if j >= s.len() {
            p
        } else if recs[s[j] as int].delta.ge(recs[s[p] as int].delta) {
            Self::choice(recs, s, j + 1, j)
        } else {
            Self::choice(recs, s, j + 1, p)
        }
    }

    /// The order `s` with the entries at `a` and `b` exchanged.
    pub open spec fn exchanged(s: Seq<usize>, a: int, b: int) -> Seq<usize> {
        s.update(a, s[b]).update(b, s[a])
    }

    /// The order that selection makes of the `n` entries of `s` from the
    /// position `i` on: the choice among the positions from `i` on moves to
    /// `i`, and the rest is ordered likewise.
    pub open spec fn selected(recs: Seq<SubRangeInfo>, s: Seq<usize>, i: int, n: int) -> Seq<
        usize,
    >
        decreases n - i,
    {
        if i < 0 || i >= n {
            s
        } else {
            Self::selected(
                recs,
                Self::exchanged(s, i, Self::choice(recs, s, i + 1, i)),
                i + 1,
                n,
            )
        }
    }

    /// Sorts `order` by decreasing error estimate, by selection, and puts the
    /// cursor `i` on its first entry: see `selected`. Without a NaN among the
    /// error estimates the workspace is then sorted.
    pub fn sort_results(&mut self)
        requires
            old(self).wf(),
        ensures
            final(self).wf(),
            final(self).subranges == old(self).subranges,
            final(self).nrmax == old(self).nrmax,
            final(self).maximum_level == old(self).maximum_level,
            final(self).subranges@.len() > 0 ==> final(self).i == final(self).order@[0],
            final(self).subranges@.len() == 0 ==> final(self).i == old(self).i
                && final(self).order@ == old(self).order@,
            no_nan_delta(old(self).subranges@) ==> final(self).sorted(),
            final(self).order@ == Self::selected(
                old(self).subranges@,
                old(self).order@,
                0,
                old(self).order@.len() as int,
            ),
    {
        let nint = self.subranges.len();
        if nint == 0 {
            return ;
        }
        let ghost recs = self.subranges@;
        let ghost srt = no_nan_delta(recs);
        let mut i: usize = 0;
        while i < nint
            invariant
                nint == recs.len(),
                nint > 0,
                i <= nint,
                self.subranges@ == recs,
                self.subranges == old(self).subranges,
                self.nrmax == old(self).nrmax,
                self.maximum_level == old(self).maximum_level,
                self.i == old(self).i,
                self.order@.len() == nint,
                is_permutation(self.order@),
                Self::selected(recs, self.order@, i as int, nint as int) == Self::selected(
                    recs,
                    old(self).order@,
                    0,
                    nint as int,
                ),
                srt ==> no_nan_delta(recs),
                srt ==> descending_except(recs, self.order@, -1, i as int),
                srt ==> forall|j: int, k: int|
                    0 <= j < i && i <= k < nint ==> #[trigger] key_at(recs, self.order@, k)
                        <= #[trigger] key_at(recs, self.order@, j),
            decreases nint - i,
        {
            let mut p_max = i;
            let mut e1 = self.subranges[self.order[i]].delta;
            let mut j = i + 1;
            while j < nint
                invariant
                    nint == recs.len(),
                    i < j <= nint,
                    i <= p_max < j,
                    self.subranges@ == recs,
                    self.order@.len() == nint,
                    is_permutation(self.order@),
                    e1 == recs[self.order@[p_max as int] as int].delta,
                    Self::choice(recs, self.order@, j as int, p_max as int) == Self::choice(
                        recs,
                        self.order@,
                        i + 1,
                        i as int,
                    ),
                    srt ==> no_nan_delta(recs),
                    srt ==> forall|k: int|
                        i <= k < j ==> #[trigger] key_at(recs, self.order@, k) <= e1.key(),
                decreases nint - j,
            {
                let e2 = self.subranges[self.order[j]].delta;
                if e2.ge(e1) {
                    p_max = j;
                    e1 = e2;
                }
                proof {
                    if srt {
                        assert(!recs[self.order@[j as int] as int].delta.is_nan());
                        assert(!recs[self.order@[p_max as int] as int].delta.is_nan());
                        assert(key_at(recs, self.order@, j as int) <= e1.key());
                    }
                }
                j += 1;
            }
            let ghost chosen = self.order@;
            if p_max != i {
                let ghost before = self.order@;
                let first = self.order[i];
                let best = self.order[p_max];
                self.order[i] = best;
                self.order[p_max] = first;
                proof {
                    let after = self.order@;
                    assert forall|k: int| 0 <= k < nint implies #[trigger] after[k] < nint by {
                        if k != i && k != p_max {
                            assert(after[k] == before[k]);
                        }
                    }
                    assert forall|a: int, b: int| 0 <= a < b < nint implies #[trigger] after[a]
                        != #[trigger] after[b] by {
                        let aa = if a == i {
                            p_max as int
                        } else if a == p_max {
                            i as int
                        } else {
                            a
                        };
                        let bb = if b == i {
                            p_max as int
                        } else if b == p_max {
                            i as int
                        } else {
                            b
                        };
                        assert(after[a] == before[aa]);
                        assert(after[b] == before[bb]);
                        if aa < bb {
                            assert(before[aa] != before[bb]);
                        } else {
                            assert(before[bb] != before[aa]);
                        }
                    }
                    if srt {
                        assert forall|k: int| 0 <= k < nint implies #[trigger] key_at(
                            recs,
                            after,
                            k,
                        ) == key_at(
                            recs,
                            before,
                            if k == i {
                                p_max as int
                            } else if k == p_max {
                                i as int
                            } else {
                                k
                            },
                        ) by {}
                        assert forall|k: int| i <= k < nint implies #[trigger] key_at(
                            recs,
                            before,
                            k,
                        ) <= e1.key() by {}
                    }
                }
            }
            proof {
                assert(p_max == Self::choice(recs, chosen, i + 1, i as int));
                assert(self.order@ =~= Self::exchanged(chosen, i as int, p_max as int));
                if srt {
                    let now = self.order@;
                    assert(key_at(recs, now, i as int) == e1.key());
                    assert forall|k: int| i <= k < nint implies #[trigger] key_at(recs, now, k)
                        <= e1.key() by {
                        if p_max != i {
                            if k == i {
                            } else if k == p_max {
                            } else {
                            }
                        }
                    }
                    assert forall|a: int, b: int| 0 <= a < b < i + 1 implies #[trigger] key_at(
                        recs,
                        now,
                        b,
                    ) <= #[trigger] key_at(recs, now, a) by {}
                    assert forall|a: int, b: int| 0 <= a < i + 1 && i + 1 <= b < nint implies
                        #[trigger] key_at(recs, now, b) <= #[trigger] key_at(recs, now, a) by {}
                }
            }
            i += 1;
        }
        self.i = self.order[0];
    }

    /// Moves the cursors down `order` to the first record, from position
    /// `nrmax` on, that lies above `maximum_level`, and says whether there is
    /// one. Where there is none, `nrmax` ends at the number of records.
    pub fn increase_nrmax(&mut self) -> (found: bool)
        requires
            old(self).wf(),
            old(self).subranges@.len() > 0,
        ensures
            final(self).subranges == old(self).subranges,
            final(self).order == old(self).order,
            final(self).maximum_level == old(self).maximum_level,
            final(self).nrmax == Self::next_shallow(
                old(self).subranges@,
                old(self).order@,
                old(self).maximum_level,
                old(self).nrmax as int,
            ),
            found == (final(self).nrmax < old(self).order@.len()),
            found ==> final(self).i == old(self).order@[final(self).nrmax as int],
            !found ==> final(self).i == if old(self).nrmax < old(self).order@.len() {
                old(self).order@[old(self).order@.len() - 1]
            } else {
                old(self).i
            },
            final(self).wf(),
    {
        let n = self.subranges.len();
        while self.nrmax < n
            invariant
                n == self.subranges@.len(),
                n > 0,
                self.subranges == old(self).subranges,
                self.order == old(self).order,
                self.maximum_level == old(self).maximum_level,
                self.wf(),
                old(self).nrmax <= self.nrmax <= n,
                Self::next_shallow(
                    old(self).subranges@,
                    old(self).order@,
                    old(self).maximum_level,
                    old(self).nrmax as int,
                ) == Self::next_shallow(
                    old(self).subranges@,
                    old(self).order@,
                    old(self).maximum_level,
                    self.nrmax as int,
                ),
                self.nrmax == old(self).nrmax ==> self.i == old(self).i,
                self.nrmax > old(self).nrmax ==> self.i == self.order@[self.nrmax - 1],
            decreases n - self.nrmax,
        {
            let i_max = self.order[self.nrmax];
            self.i = i_max;
            if self.subranges[i_max].level < self.maximum_level {
                return true;
            }
            self.nrmax += 1;
        }
        false
    }

    /// The estimates of the records, in the order of the records.
    pub open spec fn estimates(&self) -> Seq<Double> {
        Seq::new(self.subranges@.len(), |k: int| self.subranges@[k].estimate)
    }

    /// The error estimates of the records, in the order of the records.
    pub open spec fn deltas(&self) -> Seq<Double> {
        Seq::new(self.subranges@.len(), |k: int| self.subranges@[k].delta)
    }

    /// The sum of the estimates of all records, added up in the order of the
    /// records, starting from zero.
    pub fn sum_results<A: Float>(&self, fl: &A) -> (sum: Double)
        ensures
            is_total(fl, self.estimates(), sum),
            self.subranges@.len() == 0 ==> sum == Double::from_bits(0),
    {
        let mut sum = Double::from_bits(0);
        let ghost mut partial: Seq<Double> = seq![sum];
        let mut k: usize = 0;
        while k < self.subranges.len()
            invariant
                k <= self.subranges@.len(),
                adds_up(fl, self.estimates().take(k as int), partial),
                partial.last() == sum,
            decreases self.subranges@.len() - k,
        {
            let ghost before = partial;
            sum = fl.add(sum, self.subranges[k].estimate);
            proof {
                partial = partial.push(sum);
                let terms = self.estimates().take(k + 1);
                assert forall|j: int| 0 <= j < terms.len() implies fl.is_sum(
                    partial[j],
                    #[trigger] terms[j],
                    partial[j + 1],
                ) by {
                    if j < k {
                        assert(self.estimates().take(k as int)[j] == terms[j]);
                    }
                }
            }
            k += 1;
        }
        proof {
            assert(self.estimates().take(k as int) =~= self.estimates());
        }
        sum
    }

    /// In a sorted workspace the first entry of `order` names a record whose
    /// error estimate no other record exceeds.
    pub proof fn lemma_front_is_maximum(&self, k: int)
        requires
            self.wf(),
            self.sorted(),
            0 <= k < self.subranges@.len(),
        ensures
            self.subranges@[k].delta.le(self.subranges@[self.order@[0] as int].delta),
    {
        lemma_permutation_onto(self.order@, k);
        let pos = choose|pos: int| 0 <= pos < self.order@.len() && #[trigger] self.order@[pos] == k;
        assert(self.order@[0] < self.subranges@.len());
        if pos > 0 {
            assert(key_at(self.subranges@, self.order@, pos) <= key_at(
                self.subranges@,
                self.order@,
                0,
            ));
        }
    }

    /// The record to bisect next.
    pub fn get(&self) -> (r: &SubRangeInfo)
        requires
            self.i < self.subranges@.len(),
        ensures
            *r == self.subranges@[self.i as int],
    {
        &self.subranges[self.i]
    }

    /// The current maximum recursion depth.
    pub fn maximum_level(&self) -> (r: usize)
        ensures
            r == self.maximum_level,
    {
        self.maximum_level
    }

    /// Puts the cursors back on the record with the largest error estimate.
    pub fn reset_nrmax(&mut self)
        requires
            old(self).order@.len() > 0,
        ensures
            final(self).nrmax == 0,
            final(self).i == old(self).order@[0],
            final(self).maximum_level == old(self).maximum_level,
            final(self).subranges == old(self).subranges,
            final(self).order == old(self).order,
    {
        self.nrmax = 0;
        self.i = self.order[0];
    }
}

impl Default for WorkSpace {
    /// An empty workspace.
    fn default() -> (ws: WorkSpace)
        ensures
            ws.wf(),
            ws.sorted(),
            ws.levels_bounded(),
            ws.subranges@.len() == 0,
            ws.nrmax == 0,
            ws.i == 0,
            ws.maximum_level == 0,
    {
        WorkSpace::new()
    }
}

} // verus!
