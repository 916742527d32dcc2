//! Wynn's epsilon algorithm on the sequence of area estimates.

use vstd::prelude::*;
use crate::float::{
    Double,
    Float,
    BITS_0_0001,
    EPSILON_BITS,
    FIVE_EPSILON_BITS,
    MAX_BITS,
    ONE_BITS,
};

verus! {

/// The number of estimates that the table holds when an extrapolation begins,
/// at most.
pub const TABLE_LIMIT: usize = 50;

/// The lower two diagonals of the epsilon table, and the last three limits
/// that were extrapolated from it.
#[derive(Clone, Copy, Debug)]
pub struct ExtrapolationTable {
    /// the number of elements of `rlist2` in use; `rlist2[n - 1]` is the
    /// newest element of the first column of the epsilon table
    pub n: usize,
    /// the elements of the two lower diagonals of the triangular epsilon
    /// table, numbered from the right-hand corner of the triangle
    pub rlist2: [Double; 52],
    /// number of extrapolations that ran to their end
    pub nres: usize,
    /// the last 3 results
    pub res3la: [Double; 3],
}

/// What the arithmetic gave for one element of the new diagonal of the
/// epsilon table. A value that was not asked for is zero.
#[derive(Clone, Copy, Debug, PartialEq, Eq)]
pub struct Entry {
    /// `e2 - e1`
    pub delta2: Double,
    /// machine accuracy at the magnitudes of `e2` and `e1`
    pub tol2: Double,
    /// `e1 - e0`
    pub delta3: Double,
    /// machine accuracy at the magnitudes of `e1` and `e0`
    pub tol3: Double,
    /// the sum of the two distances
    pub absolute: Double,
    /// five machine epsilons of the magnitude of `e2`
    pub relative: Double,
    /// `e1 - e3`
    pub delta1: Double,
    /// machine accuracy at the magnitudes of `e1` and `e3`
    pub tol1: Double,
    /// the reciprocal of `delta1`
    pub inv1: Double,
    /// the reciprocal of `delta2`
    pub inv2: Double,
    /// the reciprocal of `delta3`
    pub inv3: Double,
    /// `inv1 + inv2`
    pub sum12: Double,
    /// `sum12 - inv3`
    pub ss: Double,
    /// `ss` times `e1`
    pub scaled: Double,
    /// the reciprocal of `ss`
    pub inv_ss: Double,
    /// the new element: `e1 + inv_ss`
    pub res: Double,
    /// `res - e2`
    pub diff: Double,
    /// the magnitude of `delta2` plus that of `diff`
    pub partial: Double,
    /// the error estimate of the new element: `partial` plus the magnitude
    /// of `delta3`
    pub error: Double,
}

/// What follows one element of the new diagonal.
#[derive(Clone, Copy, Debug, PartialEq, Eq)]
pub enum Entered {
    /// Three successive elements agree: the extrapolation ends at once.
    Converged,
    /// The table is cut short at this element.
    CutShort,
    /// The new element has entered the table.
    Entered,
}

/// An extrapolation between two elements of the new diagonal: the elements
/// of the table, the result so far and its error.
pub struct Progress {
    pub r: Seq<Double>,
    pub result: Double,
    pub abserr: Double,
}

impl ExtrapolationTable {
    /// No more than `TABLE_LIMIT` elements are in use.
    pub open spec fn wf(&self) -> bool {
        self.n <= TABLE_LIMIT
    }

    /// Whether `after` is this table after `y` was appended: see `append`.
    pub open spec fn appended(&self, y: Double, after: ExtrapolationTable) -> bool {
        &&& after.wf()
        &&& after.nres == self.nres
        &&& after.res3la == self.res3la
        &&& self.n < TABLE_LIMIT ==> after.n == self.n + 1 && after.rlist2@
            == self.rlist2@.update(self.n as int, y)
        &&& self.n == TABLE_LIMIT ==> after.n == TABLE_LIMIT && after.rlist2@
            == self.rlist2@.subrange(1, TABLE_LIMIT as int).push(y) + self.rlist2@.subrange(
            TABLE_LIMIT as int,
            52,
        )
    }

    /// Whether `after`, `result` and `abserr` are what an extrapolation from
    /// this table may give in the arithmetic `fl`: see `qelg`.
    pub open spec fn extrapolated<A: Float>(
        &self,
        fl: &A,
        after: ExtrapolationTable,
        result: Double,
        abserr: Double,
    ) -> bool {
        &&& 1 <= after.n <= self.n
        &&& self.n < 3 ==> after == *self && result == self.rlist2@[self.n - 1] && abserr
            == Double::from_bits(MAX_BITS)
        &&& after.nres == self.nres || after.nres == self.nres + 1
        &&& after.nres == self.nres ==> after.n == self.n && after.res3la == self.res3la
        &&& after.nres == self.nres + 1 ==> after.n < TABLE_LIMIT && self.n >= 3
        &&& after.nres == self.nres + 1 && self.nres < 3 ==> after.res3la@
            == self.res3la@.update(self.nres as int, result)
        &&& after.nres == self.nres + 1 && self.nres >= 3 ==> after.res3la@
            == seq![self.res3la@[1], self.res3la@[2], result]
        &&& self.n >= 3 && after.nres == self.nres ==> ExtrapolationTable::converged(
            fl,
            result,
            abserr,
        )
        &&& self.n >= 3 && after.nres == self.nres + 1 ==> ExtrapolationTable::is_error(
            fl,
            self.nres,
            self.res3la@,
            result,
            abserr,
        )
        &&& self.n >= 3 ==> self.extrapolates(fl, after, result, abserr)
    }

    /// Appends an estimate to the first column of the table. A full table
    /// drops its oldest element first.
    pub fn append(&mut self, y: Double)
        requires
            old(self).wf(),
        ensures
            old(self).appended(y, *final(self)),
            final(self).wf(),
            final(self).nres == old(self).nres,
            final(self).res3la == old(self).res3la,
            old(self).n < TABLE_LIMIT ==> final(self).n == old(self).n + 1 && final(self).rlist2@
                == old(self).rlist2@.update(old(self).n as int, y),
            old(self).n == TABLE_LIMIT ==> final(self).n == TABLE_LIMIT && final(self).rlist2@
                == old(self).rlist2@.subrange(1, TABLE_LIMIT as int).push(y)
                    + old(self).rlist2@.subrange(TABLE_LIMIT as int, 52),
    {
        if self.n == TABLE_LIMIT {
            let mut k: usize = 0;
            while k + 1 < TABLE_LIMIT
                invariant
                    k < TABLE_LIMIT,
                    self.n == old(self).n,
                    self.nres == old(self).nres,
                    self.res3la == old(self).res3la,
                    forall|j: int| 0 <= j < k ==> self.rlist2@[j] == old(self).rlist2@[j + 1],
                    forall|j: int| k <= j < 52 ==> self.rlist2@[j] == old(self).rlist2@[j],
                decreases TABLE_LIMIT - k,
            {
                self.rlist2[k] = self.rlist2[k + 1];
                k += 1;
            }
            self.n = TABLE_LIMIT - 1;
        }
        let n = self.n;
        self.rlist2[n] = y;
        self.n += 1;
        proof {
            if old(self).n == TABLE_LIMIT {
                assert(self.rlist2@ =~= old(self).rlist2@.subrange(1, TABLE_LIMIT as int).push(y)
                    + old(self).rlist2@.subrange(TABLE_LIMIT as int, 52));
            } else {
                assert(self.rlist2@ =~= old(self).rlist2@.update(old(self).n as int, y));
            }
        }
    }

    /// Whether `gap` is the distance of `a` from `b` in the arithmetic `fl`,
    /// and no more than machine accuracy allows at their magnitudes.
    pub open spec fn agree<A: Float>(fl: &A, a: Double, b: Double, gap: Double) -> bool {
        exists|delta: Double, tol: Double|
            #![trigger fl.is_difference(a, b, delta), fl.is_product(a.abs().max(b.abs()), Double::from_bits(EPSILON_BITS), tol)]
            {
                &&& fl.is_difference(a, b, delta)
                &&& fl.is_product(a.abs().max(b.abs()), Double::from_bits(EPSILON_BITS), tol)
                &&& gap == delta.abs()
                &&& gap.le(tol)
            }
    }

    /// Whether `result` and `abserr` are what the arithmetic `fl` may give
    /// where three successive elements agree: the last of them, and the sum
    /// of their two distances, but no less than five machine epsilons of its
    /// magnitude.
    pub open spec fn converged<A: Float>(fl: &A, result: Double, abserr: Double) -> bool {
        exists|e0: Double, e1: Double, err2: Double, err3: Double, sum: Double, floor: Double|
            #![trigger ExtrapolationTable::agree(fl, result, e1, err2), ExtrapolationTable::agree(fl, e1, e0, err3), fl.is_sum(err2, err3, sum), fl.is_product(Double::from_bits(FIVE_EPSILON_BITS), result.abs(), floor)]
            {
                &&& ExtrapolationTable::agree(fl, result, e1, err2)
                &&& ExtrapolationTable::agree(fl, e1, e0, err3)
                &&& fl.is_sum(err2, err3, sum)
                &&& fl.is_product(Double::from_bits(FIVE_EPSILON_BITS), result.abs(), floor)
                &&& abserr == sum.max(floor)
            }
    }

    /// Whether `e` is what the arithmetic `fl` may give for the sum of the
    /// distances of `result` from the three results of `window`, the newest
    /// first.
    pub open spec fn is_window_error<A: Float>(
        fl: &A,
        result: Double,
        window: Seq<Double>,
        e: Double,
    ) -> bool {
        exists|d2: Double, d1: Double, d0: Double, s: Double|
            #![trigger fl.is_difference(result, window[2], d2), fl.is_difference(result, window[1], d1), fl.is_difference(result, window[0], d0), fl.is_sum(d2.abs(), d1.abs(), s)]
            {
                &&& fl.is_difference(result, window[2], d2)
                &&& fl.is_difference(result, window[1], d1)
                &&& fl.is_difference(result, window[0], d0)
                &&& fl.is_sum(d2.abs(), d1.abs(), s)
                &&& fl.is_sum(s, d0.abs(), e)
            }
    }

    /// Whether `abserr` is the error estimate of an extrapolation that is
    /// counted, with `nres` counted before it and `window` the last three
    /// results: the largest finite double while the window fills, then the
    /// sum of the distances of `result` from the window; in both cases no
    /// less than five machine epsilons of the magnitude of `result`.
    pub open spec fn is_error<A: Float>(
        fl: &A,
        nres: usize,
        window: Seq<Double>,
        result: Double,
        abserr: Double,
    ) -> bool {
        exists|e: Double, floor: Double|
            #![trigger e.max(floor)]
            {
                &&& fl.is_product(Double::from_bits(FIVE_EPSILON_BITS), result.abs(), floor)
                &&& abserr == e.max(floor)
                &&& if nres < 3 {
                    e == Double::from_bits(MAX_BITS)
                } else {
                    ExtrapolationTable::is_window_error(fl, result, window, e)
                }
            }
    }

    /// The error estimate of an extrapolation from three elements or more is
    /// at least five machine epsilons of the magnitude of its result, as the
    /// arithmetic `fl` gives that product, unless the product is a NaN.
    pub proof fn lemma_error_floor<A: Float>(
        fl: &A,
        before: ExtrapolationTable,
        after: ExtrapolationTable,
        result: Double,
        abserr: Double,
    )
        requires
            before.n >= 3,
            before.extrapolated(fl, after, result, abserr),
        ensures
            exists|floor: Double| #[trigger]
                fl.is_product(Double::from_bits(FIVE_EPSILON_BITS), result.abs(), floor) && (
                !floor.is_nan() ==> floor.le(abserr)),
    {
        if after.nres == before.nres {
            let (e0, e1, err2, err3, sum, floor) = choose|
                e0: Double,
                e1: Double,
                err2: Double,
                err3: Double,
                sum: Double,
                floor: Double,
            |
                #![trigger ExtrapolationTable::agree(fl, result, e1, err2), ExtrapolationTable::agree(fl, e1, e0, err3), fl.is_sum(err2, err3, sum), fl.is_product(Double::from_bits(FIVE_EPSILON_BITS), result.abs(), floor)]
                {
                    &&& ExtrapolationTable::agree(fl, result, e1, err2)
                    &&& ExtrapolationTable::agree(fl, e1, e0, err3)
                    &&& fl.is_sum(err2, err3, sum)
                    &&& fl.is_product(Double::from_bits(FIVE_EPSILON_BITS), result.abs(), floor)
                    &&& abserr == sum.max(floor)
                };
            assert(fl.is_product(Double::from_bits(FIVE_EPSILON_BITS), result.abs(), floor) && (
            !floor.is_nan() ==> floor.le(abserr)));
        } else {
            let (e, floor) = choose|e: Double, floor: Double|
                #![trigger e.max(floor)]
                {
                    &&& fl.is_product(Double::from_bits(FIVE_EPSILON_BITS), result.abs(), floor)
                    &&& abserr == e.max(floor)
                    &&& if before.nres < 3 {
                        e == Double::from_bits(MAX_BITS)
                    } else {
                        ExtrapolationTable::is_window_error(fl, result, before.res3la@, e)
                    }
                };
            assert(fl.is_product(Double::from_bits(FIVE_EPSILON_BITS), result.abs(), floor) && (
            !floor.is_nan() ==> floor.le(abserr)));
        }
    }

    /// What follows one element of the new diagonal, given what the
    /// arithmetic has made of the elements `e0`, `e1`, `e2` around the place
    /// `ep` and of the element `e3` there:
    ///
    /// 1. where `e0`, `e1` and `e2` agree to machine accuracy, the
    ///    extrapolation has converged: the result is `e2`, and its error the
    ///    sum of the two distances, but no less than five machine epsilons of
    ///    its magnitude;
    /// 2. otherwise `e1` moves to the place `ep`; where two of the elements
    ///    are very close, or the reciprocal differences nearly cancel, the
    ///    table is cut short there;
    /// 3. otherwise the new element enters at `ep`, and becomes the result
    ///    where its error estimate is no larger than that of the result so
    ///    far.
    ///
    /// The parts are the outcome, the elements, the result and its error.
    pub open spec fn spec_entry(
        r: Seq<Double>,
        ep: int,
        result: Double,
        abserr: Double,
        d: Entry,
    ) -> (Entered, Seq<Double>, Double, Double) {
        let e1 = r[ep - 1];
        let e2 = r[ep + 2];
        if Self::agreeing(d) {
            (Entered::Converged, r, e2, d.absolute.max(d.relative))
        } else if Self::cut_short(d) {
            (Entered::CutShort, r.update(ep, e1), result, abserr)
        } else if d.error.le(abserr) {
            (Entered::Entered, r.update(ep, d.res), d.res, d.error)
        } else {
            (Entered::Entered, r.update(ep, d.res), result, abserr)
        }
    }

    /// Whether the three elements agree to machine accuracy.
    pub open spec fn agreeing(d: Entry) -> bool {
        d.delta2.abs().le(d.tol2) && d.delta3.abs().le(d.tol3)
    }

    /// Whether two of the four elements are very close to each other.
    pub open spec fn very_close(d: Entry) -> bool {
        d.delta1.abs().le(d.tol1) || d.delta2.abs().le(d.tol2) || d.delta3.abs().le(d.tol3)
    }

    /// Whether the table is cut short at this element: two elements are very
    /// close, or the behaviour of the table is irregular.
    pub open spec fn cut_short(d: Entry) -> bool {
        Self::very_close(d) || d.scaled.abs().le(Double::from_bits(BITS_0_0001))
    }

    /// Whether `d` holds what the arithmetic `fl` may give for one element
    /// of the new diagonal at the place `ep` of the elements `r`, as far as
    /// `spec_entry` asks for it: the distances of the elements and the
    /// accuracy of the machine at their magnitudes; for elements that agree,
    /// the error of the result; for others that are not very close, the sum
    /// of the reciprocal differences and its product with `e1`; and for a
    /// regular table the new element and its error estimate.
    pub open spec fn entry_sums<A: Float>(fl: &A, r: Seq<Double>, ep: int, d: Entry) -> bool {
        let e0 = r[ep - 2];
        let e1 = r[ep - 1];
        let e2 = r[ep + 2];
        let e3 = r[ep];
        let one = Double::from_bits(ONE_BITS);
        let epsilon = Double::from_bits(EPSILON_BITS);
        &&& fl.is_difference(e2, e1, d.delta2)
        &&& fl.is_product(e2.abs().max(e1.abs()), epsilon, d.tol2)
        &&& fl.is_difference(e1, e0, d.delta3)
        &&& fl.is_product(e1.abs().max(e0.abs()), epsilon, d.tol3)
        &&& Self::agreeing(d) ==> {
            &&& fl.is_sum(d.delta2.abs(), d.delta3.abs(), d.absolute)
            &&& fl.is_product(Double::from_bits(FIVE_EPSILON_BITS), e2.abs(), d.relative)
        }
        &&& !Self::agreeing(d) ==> {
            &&& fl.is_difference(e1, e3, d.delta1)
            &&& fl.is_product(e1.abs().max(e3.abs()), epsilon, d.tol1)
        }
        &&& !Self::agreeing(d) && !Self::very_close(d) ==> {
            &&& fl.is_quotient(one, d.delta1, d.inv1)
            &&& fl.is_quotient(one, d.delta2, d.inv2)
            &&& fl.is_quotient(one, d.delta3, d.inv3)
            &&& fl.is_sum(d.inv1, d.inv2, d.sum12)
            &&& fl.is_difference(d.sum12, d.inv3, d.ss)
            &&& fl.is_product(d.ss, e1, d.scaled)
        }
        &&& !Self::agreeing(d) && !Self::cut_short(d) ==> {
            &&& fl.is_quotient(one, d.ss, d.inv_ss)
            &&& fl.is_sum(e1, d.inv_ss, d.res)
            &&& fl.is_difference(d.res, e2, d.diff)
            &&& fl.is_sum(d.delta2.abs(), d.diff.abs(), d.partial)
            &&& fl.is_sum(d.partial, d.delta3.abs(), d.error)
        }
    }

    /// Computes one element of the new diagonal, at the place `ep`, and
    /// decides what follows: see `spec_entry`. The second part of the result
    /// is what the arithmetic gave on the way.
    pub fn entry<A: Float>(
        &mut self,
        fl: &A,
        ep: usize,
        result: &mut Double,
        abserr: &mut Double,
    ) -> (r: (Entered, Entry))
        requires
            2 <= ep <= 49,
        ensures
            Self::entry_sums(fl, old(self).rlist2@, ep as int, r.1),
            (r.0, final(self).rlist2@, *final(result), *final(abserr)) == Self::spec_entry(
                old(self).rlist2@,
                ep as int,
                *old(result),
                *old(abserr),
                r.1,
            ),
            final(self).n == old(self).n,
            final(self).nres == old(self).nres,
            final(self).res3la == old(self).res3la,
            r.0 is Converged ==> ExtrapolationTable::converged(fl, *final(result), *final(abserr)),
    {
        let zero = Double::from_bits(0);
        let epsilon = Double::from_bits(EPSILON_BITS);
        let one = Double::from_bits(ONE_BITS);
        let mut d = Entry {
            delta2: zero,
            tol2: zero,
            delta3: zero,
            tol3: zero,
            absolute: zero,
            relative: zero,
            delta1: zero,
            tol1: zero,
            inv1: zero,
            inv2: zero,
            inv3: zero,
            sum12: zero,
            ss: zero,
            scaled: zero,
            inv_ss: zero,
            res: zero,
            diff: zero,
            partial: zero,
            error: zero,
        };
        let e0 = self.rlist2[ep - 2];
        let e1 = self.rlist2[ep - 1];
        let e2 = self.rlist2[ep + 2];

        let e1abs = e1.abs();
        d.delta2 = fl.sub(e2, e1);
        let err2 = d.delta2.abs();
        d.tol2 = fl.mul(e2.abs().max(e1abs), epsilon);
        d.delta3 = fl.sub(e1, e0);
        let err3 = d.delta3.abs();
        d.tol3 = fl.mul(e1abs.max(e0.abs()), epsilon);

        // If e0, e1 and e2 are equal to within machine accuracy,
        // convergence is assumed.
        if err2.le(d.tol2) && err3.le(d.tol3) {
            *result = e2;
            d.absolute = fl.add(err2, err3);
            d.relative = fl.mul(Double::from_bits(FIVE_EPSILON_BITS), e2.abs());
            *abserr = d.absolute.max(d.relative);
            proof {
                assert(fl.is_difference(e2, e1, d.delta2) && fl.is_product(
                    e2.abs().max(e1.abs()),
                    Double::from_bits(EPSILON_BITS),
                    d.tol2,
                ));
                assert(ExtrapolationTable::agree(fl, e2, e1, err2));
                assert(fl.is_difference(e1, e0, d.delta3) && fl.is_product(
                    e1.abs().max(e0.abs()),
                    Double::from_bits(EPSILON_BITS),
                    d.tol3,
                ));
                assert(ExtrapolationTable::agree(fl, e1, e0, err3));
                assert(fl.is_sum(err2, err3, d.absolute) && fl.is_product(
                    Double::from_bits(FIVE_EPSILON_BITS),
                    e2.abs(),
                    d.relative,
                ));
                assert(ExtrapolationTable::converged(fl, *result, *abserr));
            }
            return (Entered::Converged, d);
        }
        let e3 = self.rlist2[ep];
        self.rlist2[ep] = e1;
        d.delta1 = fl.sub(e1, e3);
        let err1 = d.delta1.abs();
        d.tol1 = fl.mul(e1abs.max(e3.abs()), epsilon);

        // If two elements are very close to each other, omit a part of the
        // table by adjusting the value of n.
        if err1.le(d.tol1) || err2.le(d.tol2) || err3.le(d.tol3) {
            return (Entered::CutShort, d);
        }
        d.inv1 = fl.div(one, d.delta1);
        d.inv2 = fl.div(one, d.delta2);
        d.inv3 = fl.div(one, d.delta3);
        d.sum12 = fl.add(d.inv1, d.inv2);
        d.ss = fl.sub(d.sum12, d.inv3);

        // Test to detect irregular behaviour in the table, and eventually
        // omit a part of the table by adjusting the value of n.
        d.scaled = fl.mul(d.ss, e1);
        if d.scaled.abs().le(Double::from_bits(BITS_0_0001)) {
            return (Entered::CutShort, d);
        }
        // Compute a new element and eventually adjust the value of result.

        d.inv_ss = fl.div(one, d.ss);
        d.res = fl.add(e1, d.inv_ss);
        self.rlist2[ep] = d.res;

        d.diff = fl.sub(d.res, e2);
        d.partial = fl.add(err2, d.diff.abs());
        d.error = fl.add(d.partial, err3);
        if d.error.le(*abserr) {
            *abserr = d.error;
            *result = d.res;
        }
        proof {
            assert(self.rlist2@ =~= old(self).rlist2@.update(ep as int, d.res));
        }
        (Entered::Entered, d)
    }

    /// Where an extrapolation begins: the newest element is the result so
    /// far, with no bound on its error; it moves two places up, and the
    /// largest finite double takes its place.
    pub open spec fn first_stage(&self) -> Progress {
        let n = self.n - 1;
        Progress {
            r: self.rlist2@.update(n + 2, self.rlist2@[n]).update(
                n,
                Double::from_bits(MAX_BITS),
            ),
            result: self.rlist2@[n],
            abserr: Double::from_bits(MAX_BITS),
        }
    }

    /// Whether the element number `k` of the new diagonal, of a table whose
    /// newest element lies at `n`, takes the extrapolation from the stage `a`
    /// to the stage `b`, with `out` to follow: see `spec_entry`, at the place
    /// `n - 2 * k`.
    #[verifier::opaque]
    pub open spec fn enters<A: Float>(
        fl: &A,
        n: int,
        k: int,
        a: Progress,
        out: Entered,
        b: Progress,
    ) -> bool {
        exists|d: Entry| #[trigger]
            Self::entry_sums(fl, a.r, n - 2 * k, d) && (out, b.r, b.result, b.abserr)
                == Self::spec_entry(a.r, n - 2 * k, a.result, a.abserr, d)
    }

    /// Whether the elements of the new diagonal with the outcomes `outs`
    /// take the extrapolation through `stages`, and none but the last ends
    /// the diagonal.
    #[verifier::opaque]
    pub open spec fn climbs<A: Float>(
        fl: &A,
        n: int,
        stages: Seq<Progress>,
        outs: Seq<Entered>,
    ) -> bool {
        &&& stages.len() == outs.len() + 1
        &&& forall|k: int|
            0 <= k < outs.len() ==> Self::enters(
                fl,
                n,
                k,
                stages[k],
                #[trigger] outs[k],
                stages[k + 1],
            )
        &&& forall|k: int| 0 <= k < outs.len() - 1 ==> (#[trigger] outs[k]) is Entered
    }

    /// One more element prolongs a diagonal none of whose elements has
    /// ended it.
    proof fn lemma_climbs<A: Float>(
        fl: &A,
        n: int,
        stages: Seq<Progress>,
        outs: Seq<Entered>,
        out: Entered,
        b: Progress,
    )
        requires
            Self::climbs(fl, n, stages, outs),
            outs.len() > 0 ==> outs.last() is Entered,
            Self::enters(fl, n, outs.len() as int, stages.last(), out, b),
        ensures
            Self::climbs(fl, n, stages.push(b), outs.push(out)),
    {
        reveal(ExtrapolationTable::climbs);
        let longer = stages.push(b);
        let more = outs.push(out);
        assert forall|k: int| 0 <= k < more.len() implies Self::enters(
            fl,
            n,
            k,
            longer[k],
            #[trigger] more[k],
            longer[k + 1],
        ) by {
            if k < outs.len() {
                assert(more[k] == outs[k]);
                assert(longer[k] == stages[k] && longer[k + 1] == stages[k + 1]);
            }
        }
        assert forall|k: int| 0 <= k < more.len() - 1 implies (#[trigger] more[k]) is Entered by {
            assert(more[k] == outs[k]);
        }
    }

    /// The place of the newest element that is kept after a diagonal with
    /// the outcomes `outs`, in a table whose newest element lay at `n`:
    /// twice the number of the element at which the table was cut short, and
    /// `n` where it was not; but the largest even place where that is the
    /// last place of the table.
    pub open spec fn kept(n: int, outs: Seq<Entered>) -> int {
        let cut = if outs.len() > 0 && outs.last() is CutShort {
            2 * (outs.len() - 1)
        } else {
            n
        };
        if cut == TABLE_LIMIT - 1 {
            2 * ((TABLE_LIMIT - 1) / 2)
        } else {
            cut
        }
    }

    /// The elements after the new diagonal has taken the place of the old
    /// one: every second element, from the first or the second, as `n` is
    /// even or odd, up to the place `n`, is replaced by the one two places
    /// up.
    pub open spec fn lowered(r: Seq<Double>, n: int) -> Seq<Double> {
        Seq::new(
            52,
            |k: int|
                if n % 2 <= k <= n % 2 + 2 * (n / 2) && (k - n % 2) % 2 == 0 {
                    r[k + 2]
                } else {
                    r[k]
                },
        )
    }

    /// The elements after a table that was cut short is moved down: the
    /// elements up to the place `kept` are replaced by those `n - kept`
    /// places up.
    pub open spec fn moved_down(r: Seq<Double>, n: int, kept: int) -> Seq<Double> {
        Seq::new(
            52,
            |k: int|
                if n != kept && k <= kept {
                    r[n - kept + k]
                } else {
                    r[k]
                },
        )
    }

    /// Whether `after`, `result` and `abserr` are what the epsilon algorithm
    /// may make, in the arithmetic `fl`, of this table of three elements or
    /// more: the elements of the new diagonal are computed one after the
    /// other, from the newest element down, until one of them converges or
    /// cuts the table short.
    ///
    /// * Where an element converges, the table stays as the diagonal has
    ///   left it, and the result and its error are those of that element.
    /// * Otherwise the new diagonal takes the place of the old one, a table
    ///   that was cut short is moved down, the extrapolation is counted, and
    ///   the result enters the window of the last three: see `is_error` for
    ///   its error.
    pub open spec fn extrapolates<A: Float>(
        &self,
        fl: &A,
        after: ExtrapolationTable,
        result: Double,
        abserr: Double,
    ) -> bool {
        let n = self.n - 1;
        exists|stages: Seq<Progress>, outs: Seq<Entered>| #[trigger]
            Self::climbs(fl, n, stages, outs) && {
                let last = stages.last();
                &&& stages.len() == outs.len() + 1
                &&& stages[0] == self.first_stage()
                &&& outs.len() <= n / 2
                &&& result == last.result
                &&& if outs.len() > 0 && outs.last() is Converged {
                    &&& after.rlist2@ == last.r
                    &&& after.n == self.n
                    &&& after.nres == self.nres
                    &&& after.res3la == self.res3la
                    &&& abserr == last.abserr
                } else {
                    &&& outs.len() == n / 2 || (outs.len() > 0 && outs.last() is CutShort)
                    &&& after.rlist2@ == Self::moved_down(
                        Self::lowered(last.r, n),
                        n,
                        Self::kept(n, outs),
                    )
                    &&& after.n == Self::kept(n, outs) + 1
                    &&& after.nres == self.nres + 1
                    &&& Self::is_error(fl, self.nres, self.res3la@, result, abserr)
                }
            }
    }

    /// Determines the limit of the sequence of estimates in the table by the
    /// epsilon algorithm of P. Wynn, with an estimate of the absolute error.
    /// Only the elements needed for the next diagonal are kept.
    ///
    /// * `result` - resulting approximation to the integral
    /// * `abserr` - estimate of the absolute error computed from
    ///              result and the 3 previous results
    ///
    /// With fewer than three elements the newest is the result, its error is
    /// the largest finite double, and the table stays as it is. Where three
    /// successive elements agree to machine accuracy, the extrapolation ends
    /// at once and is not counted in `nres`. Otherwise the result enters the
    /// window of the last three. Until the window is full the error is
    /// unbounded: no less than the largest finite double. After that it is
    /// the sum of the distances of the result from the three before it, but
    /// no less than five machine epsilons of its magnitude.
    pub fn qelg<A: Float>(&mut self, fl: &A, result: &mut Double, abserr: &mut Double)
        requires
            1 <= old(self).n <= TABLE_LIMIT,
            old(self).nres < usize::MAX,
        ensures
            1 <= final(self).n <= old(self).n,
            old(self).n < 3 ==> *final(self) == *old(self) && *final(result)
                == old(self).rlist2@[old(self).n - 1] && *final(abserr)
                == Double::from_bits(MAX_BITS),
            final(self).nres == old(self).nres || final(self).nres == old(self).nres + 1,
            final(self).nres == old(self).nres ==> final(self).n == old(self).n
                && final(self).res3la == old(self).res3la,
            final(self).nres == old(self).nres + 1 ==> final(self).n < TABLE_LIMIT && old(self).n
                >= 3,
            final(self).nres == old(self).nres + 1 && old(self).nres < 3 ==> final(self).res3la@
                == old(self).res3la@.update(old(self).nres as int, *final(result)),
            final(self).nres == old(self).nres + 1 && old(self).nres < 3 ==> Double::from_bits(
                MAX_BITS,
            ).le(*final(abserr)),
            old(self).extrapolated(fl, *final(self), *final(result), *final(abserr)),
            final(self).nres == old(self).nres + 1 && old(self).nres >= 3
                ==> final(self).res3la@
                == seq![old(self).res3la@[1], old(self).res3la@[2], *final(result)],
            old(self).n >= 3 && final(self).nres == old(self).nres
                ==> ExtrapolationTable::converged(fl, *final(result), *final(abserr)),
            old(self).n >= 3 && final(self).nres == old(self).nres + 1
                ==> ExtrapolationTable::is_error(
                fl,
                old(self).nres,
                old(self).res3la@,
                *final(result),
                *final(abserr),
            ),
    {
        let n = self.n - 1;
        let current = self.rlist2[n];
        let newelm = n / 2;
        let nres_orig = self.nres;
        let max = Double::from_bits(MAX_BITS);

        *result = current;
        *abserr = max;

        if n < 2 {
            return ;
        }
        self.rlist2[n + 2] = self.rlist2[n];
        self.rlist2[n] = max;

        let ghost mut stages: Seq<Progress> = seq![
            Progress { r: self.rlist2@, result: *result, abserr: *abserr },
        ];
        let ghost mut outs: Seq<Entered> = Seq::empty();
        proof {
            reveal(ExtrapolationTable::climbs);
            assert(stages[0].r =~= old(self).first_stage().r);
            assert(Self::climbs(fl, n as int, stages, outs));
        }
        let mut cut = false;
        let mut i: usize = 0;
        while i < newelm
            invariant_except_break
                !cut,
                outs.len() == i,
                outs.len() > 0 ==> outs.last() is Entered,
            invariant
                i <= newelm,
                n + 1 == old(self).n,
                2 <= n < TABLE_LIMIT,
                newelm == n / 2,
                self.n == old(self).n,
                self.nres == old(self).nres,
                self.res3la == old(self).res3la,
                stages.len() == outs.len() + 1,
                stages[0] == old(self).first_stage(),
                Self::climbs(fl, n as int, stages, outs),
                stages.last() == (Progress {
                    r: self.rlist2@,
                    result: *result,
                    abserr: *abserr,
                }),
            ensures
                cut ==> outs.len() > 0 && outs.last() is CutShort && i + 1 == outs.len(),
                !cut ==> i == newelm && outs.len() == newelm && (outs.len() > 0
                    ==> outs.last() is Entered),
                outs.len() <= newelm,
            decreases newelm - i,
        {
            let ep = n - 2 * i;
            let ghost a = Progress { r: self.rlist2@, result: *result, abserr: *abserr };
            let (out, d) = self.entry(fl, ep, result, abserr);
            proof {
                let b = Progress { r: self.rlist2@, result: *result, abserr: *abserr };
                assert(Self::enters(fl, n as int, i as int, a, out, b)) by {
                    reveal(ExtrapolationTable::enters);
                    assert(Self::entry_sums(fl, a.r, n - 2 * i, d));
                }
                Self::lemma_climbs(fl, n as int, stages, outs, out, b);
                assert(stages.push(b)[0] == stages[0]);
                stages = stages.push(b);
                outs = outs.push(out);
            }
            match out {
                Entered::Converged => {
                    proof {
                        assert(old(self).extrapolates(fl, *self, *result, *abserr));
                    }
                    return ;
                },
                Entered::CutShort => {
                    cut = true;
                    break ;
                },
                Entered::Entered => {},
            }
            i += 1;
        }
        let mut n_final = if cut {
            2 * i
        } else {
            n
        };

        // shift table

        let limexp: usize = TABLE_LIMIT - 1;
        if n_final == limexp {
            n_final = 2 * (limexp / 2);
        }
        assert(n_final == Self::kept(n as int, outs));
        let start: usize = if n % 2 == 1 {
            1
        } else {
            0
        };
        let ghost climbed = self.rlist2@;
        let mut idx: usize = start;
        let idx_end = idx + newelm * 2;
        while idx <= idx_end
            invariant
                n_final <= n,
                n + 1 == old(self).n,
                start == n % 2,
                newelm == n / 2,
                idx_end == start + 2 * newelm,
                idx_end <= n < TABLE_LIMIT,
                start <= idx <= idx_end + 2,
                (idx - start) % 2 == 0,
                self.n == old(self).n,
                self.nres == old(self).nres,
                self.res3la == old(self).res3la,
                climbed.len() == 52,
                forall|k: int|
                    0 <= k < 52 ==> #[trigger] self.rlist2@[k] == if start <= k < idx && (k
                        - start) % 2 == 0 {
                        climbed[k + 2]
                    } else {
                        climbed[k]
                    },
            decreases idx_end + 2 - idx,
        {
            self.rlist2[idx] = self.rlist2[idx + 2];
            idx += 2;
        }
        let ghost low = self.rlist2@;
        proof {
            assert(low =~= Self::lowered(climbed, n as int));
        }

        if n != n_final {
            let shift = n - n_final;
            let mut k: usize = 0;
            while k <= n_final
                invariant
                    k <= n_final + 1,
                    n_final < n < TABLE_LIMIT,
                    n + 1 == old(self).n,
                    shift == n - n_final,
                    self.n == old(self).n,
                    self.nres == old(self).nres,
                    self.res3la == old(self).res3la,
                    low.len() == 52,
                    forall|j: int|
                        0 <= j < 52 ==> #[trigger] self.rlist2@[j] == if j < k {
                            low[shift + j]
                        } else {
                            low[j]
                        },
                decreases n_final + 1 - k,
            {
                self.rlist2[k] = self.rlist2[shift + k];
                k += 1;
            }
        }
        proof {
            assert(self.rlist2@ =~= Self::moved_down(low, n as int, n_final as int));
        }
        self.n = n_final + 1;

        if nres_orig < 3 {
            self.res3la[nres_orig] = *result;
            *abserr = max;
        } else {
            // Compute error estimate
            let d2 = fl.sub(*result, self.res3la[2]);
            let d1 = fl.sub(*result, self.res3la[1]);
            let d0 = fl.sub(*result, self.res3la[0]);
            let s = fl.add(d2.abs(), d1.abs());
            *abserr = fl.add(s, d0.abs());
            proof {
                let window = old(self).res3la@;
                assert(fl.is_difference(*result, window[2], d2) && fl.is_difference(
                    *result,
                    window[1],
                    d1,
                ) && fl.is_difference(*result, window[0], d0) && fl.is_sum(d2.abs(), d1.abs(), s));
                assert(ExtrapolationTable::is_window_error(fl, *result, window, *abserr));
            }

            // append result at the tail of res3la
            self.res3la[0] = self.res3la[1];
            self.res3la[1] = self.res3la[2];
            self.res3la[2] = *result;
        }

        // The count of extrapolations is raised here, so that it counts
        // those that have filled the window of results.
        self.nres = nres_orig + 1;
        let ghost e = *abserr;
        let floor = fl.mul(Double::from_bits(FIVE_EPSILON_BITS), (*result).abs());
        *abserr = (*abserr).max(floor);
        proof {
            assert(*abserr == e.max(floor));
            assert(ExtrapolationTable::is_error(
                fl,
                old(self).nres,
                old(self).res3la@,
                *result,
                *abserr,
            ));
            if nres_orig < 3 {
                assert(self.res3la@ =~= old(self).res3la@.update(nres_orig as int, *result));
            } else {
                assert(self.res3la@ =~= seq![
                    old(self).res3la@[1],
                    old(self).res3la@[2],
                    *result,
                ]);
            }
            assert(old(self).extrapolates(fl, *self, *result, *abserr));
        }
    }
}

impl Default for ExtrapolationTable {
    /// An empty table.
    fn default() -> (r: Self)
        ensures
            r.n == 0,
            r.nres == 0,
            r.wf(),
    {
        Self {
            n: 0,
            rlist2: [Double::from_bits(0);52],
            nres: 0,
            res3la: [Double::from_bits(0);3],
        }
    }
}

} // verus!
