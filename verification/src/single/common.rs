//! Ranges, configurations and integrands.

use vstd::prelude::*;
use crate::common::Tolerance;
use crate::float::Double;
use crate::single::points::{Points, POINTS_LIMIT};

verus! {

/// The range over which an integral is estimated. The direction counts:
/// exchanging `begin` and `end` negates the integral.
#[derive(Clone, Copy, Debug, PartialEq, Eq, Hash)]
pub struct Range {
    /// beginning of the range
    pub begin: Double,
    /// end of the range
    pub end: Double,
}

impl Range {
    /// Neither endpoint is a NaN (either may be infinite).
    pub open spec fn wf(&self) -> bool {
        !self.begin.is_nan() && !self.end.is_nan()
    }

    /// Whether neither endpoint is a NaN.
    pub fn is_wf(&self) -> (r: bool)
        ensures
            r == self.wf(),
    {
        !self.begin.is_nan() && !self.end.is_nan()
    }

    /// The smaller endpoint: the beginning where it is less than the end.
    pub open spec fn lower(&self) -> Double {
        if self.begin.lt(self.end) {
            self.begin
        } else {
            self.end
        }
    }

    /// The larger endpoint: the end where the beginning is less than it.
    pub open spec fn upper(&self) -> Double {
        if self.begin.lt(self.end) {
            self.end
        } else {
            self.begin
        }
    }

    /// Both endpoints are finite.
    pub open spec fn finite(&self) -> bool {
        self.begin.is_finite() && self.end.is_finite()
    }

    /// The range from `begin` to `end`, or `None` if either is a NaN.
    pub fn new(begin: Double, end: Double) -> (r: Option<Range>)
        ensures
            (begin.is_nan() || end.is_nan()) ==> r.is_none(),
            !(begin.is_nan() || end.is_nan()) ==> r == Some(Range { begin, end }),
    {
        if begin.is_nan() || end.is_nan() {
            None
        } else {
            Some(Range { begin, end })
        }
    }

    /// The range from `begin` to `end`, for endpoints known not to be NaN.
    pub fn new_unchecked(begin: Double, end: Double) -> (r: Range)
        requires
            !begin.is_nan(),
            !end.is_nan(),
        ensures
            r == (Range { begin, end }),
            r.wf(),
    {
        Range { begin, end }
    }
}

/// Integration configuration
#[derive(Clone, Debug, PartialEq)]
pub struct IntegrationConfig {
    /// the tolerance to be satisfied
    pub tolerance: Tolerance,
    /// the most evaluations of the integrand that one integration may make
    pub max_evals: usize,
    /// specify singular points
    pub points: Points,
}

impl IntegrationConfig {
    /// The singular points, with the two ends of a range, are no more than a
    /// vector of points may hold.
    pub open spec fn wf(&self) -> bool {
        self.points@.len() + 2 <= POINTS_LIMIT
    }

    /// Whether the singular points, with the two ends of a range, are no
    /// more than a vector of points may hold.
    pub fn is_wf(&self) -> (r: bool)
        ensures
            r == self.wf(),
    {
        self.points.len() <= POINTS_LIMIT - 2
    }
}

impl Default for IntegrationConfig {
    /// The default tolerance, 2000 evaluations, no singular point.
    fn default() -> (r: Self)
        ensures
            r.tolerance == Tolerance::standard(),
            r.max_evals == 2000,
            r.points@.len() == 0,
            r.wf(),
    {
        Self { tolerance: Tolerance::default(), max_evals: 2000, points: Points::new() }
    }
}

/// The function that is to be integrated
pub trait Integrand: Sized {
    /// What the integrand keeps true of itself from one evaluation to the
    /// next. An integrand without a state of its own has nothing to keep.
    open spec fn inv(&self) -> bool {
        true
    }

    /// Whether an evaluation at `x`, made of this integrand, may return `y`
    /// and leave the integrand as `after`. An integrand that says nothing of
    /// its values leaves every outcome open.
    open spec fn yields(&self, x: Double, y: Double, after: &Self) -> bool {
        true
    }

    /// apply function to explanatory variable `x`
    fn apply(&mut self, x: Double) -> (y: Double)
        requires
            old(self).inv(),
        ensures
            final(self).inv(),
            old(self).yields(x, y, final(self)),
    ;

    /// apply function to each of the elements of `s`, from the first to the
    /// last.
    fn apply_to_slice(&mut self, s: &mut [Double])
        requires
            old(self).inv(),
        ensures
            final(self).inv(),
            final(s)@.len() == old(s)@.len(),
            exists|states: Seq<Self>|
                #![trigger states[0]]
                {
                    &&& states.len() == old(s)@.len() + 1
                    &&& states[0] == *old(self)
                    &&& states.last() == *final(self)
                    &&& forall|k: int|
                        0 <= k < old(s)@.len() ==> states[k].yields(
                            #[trigger] old(s)@[k],
                            final(s)@[k],
                            &states[k + 1],
                        )
                },
    {
        let n = s.len();
        let ghost mut states: Seq<Self> = seq![*self];
        let mut k: usize = 0;
        while k < n
            invariant
                s@.len() == n,
                n == old(s)@.len(),
                k <= n,
                self.inv(),
                states.len() == k + 1,
                forall|j: int|
                    0 <= j < k ==> states[j].yields(#[trigger] old(s)@[j], s@[j], &states[j + 1]),
                states[0] == *old(self),
                states.last() == *self,
                forall|j: int| k <= j < n ==> s@[j] == old(s)@[j],
            decreases n - k,
        {
            let y = self.apply(s[k]);
            s[k] = y;
            proof {
                states = states.push(*self);
            }
            k += 1;
        }
        proof {
            assert(states[0] == *old(self));
        }
    }
}

/// Whether evaluations at the points `xs`, from the first to the last, may
/// return the values `ys` and take the integrand through `states`, one state
/// before each evaluation and one after the last.
pub open spec fn evaluated<F: Integrand>(states: Seq<F>, xs: Seq<Double>, ys: Seq<Double>) -> bool {
    &&& states.len() == xs.len() + 1
    &&& ys.len() == xs.len()
    &&& forall|k: int|
        0 <= k < xs.len() ==> states[k].yields(#[trigger] xs[k], ys[k], &states[k + 1])
}

/// Whether evaluations at the points `xs`, from the first to the last, made
/// of the integrand `before`, may return the values `ys` and leave the
/// integrand as `after`.
pub open spec fn yields_all<F: Integrand>(
    before: F,
    xs: Seq<Double>,
    ys: Seq<Double>,
    after: F,
) -> bool {
    exists|states: Seq<F>|
        #[trigger] evaluated(states, xs, ys) && states[0] == before && states.last() == after
}

} // verus!
