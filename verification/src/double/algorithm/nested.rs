//! The integral over one coordinate as the integrand of the integral over
//! the other.

use vstd::prelude::*;
use crate::common::{IntegrationResult, Solution, Tolerance, ValueWithError};
use crate::double::common::{Integrand2, Point2};
use crate::double::range::RangeFn;
use crate::error::RuntimeError;
use crate::float::{Double, Float, NAN_BITS};
use crate::single::algorithm::{Algorithm, Described};
use crate::single::common::{Integrand, IntegrationConfig, Range};
use crate::single::points::{Points, POINTS_LIMIT};

verus! {

/// A function of two coordinates with one of them fixed.
pub struct Section<'a, F: Integrand2> {
    pub f: &'a mut F,
    /// the fixed coordinate
    pub outer: Double,
    /// whether the fixed coordinate is the second
    pub swap: bool,
}

impl<'a, F: Integrand2> Section<'a, F> {
    /// The point of the plane whose free coordinate is `x`.
    pub open spec fn point(&self, x: Double) -> Point2 {
        if self.swap {
            (x, self.outer)
        } else {
            (self.outer, x)
        }
    }
}

impl<'a, F: Integrand2> Integrand for Section<'a, F> {
    /// The fixed coordinate and its place stay, and the value is one that
    /// the function of two coordinates yields at the point with the free
    /// coordinate `x`.
    open spec fn yields(&self, x: Double, y: Double, after: &Self) -> bool {
        &&& after.outer == self.outer
        &&& after.swap == self.swap
        &&& self.f.yields(self.point(x), y, &*after.f)
    }

    /// The function of two coordinates at the point with the free coordinate
    /// `x`.
    fn apply(&mut self, x: Double) -> (y: Double) {
        if self.swap {
            self.f.apply((x, self.outer))
        } else {
            self.f.apply((self.outer, x))
        }
    }
}

/// The integral over the inner coordinate, as a function of the outer one.
///
/// Every evaluation of the function of two coordinates is counted against
/// `budget`, and an inner integration is given what is left of it. The first
/// error of an inner integration is kept; after an error no inner
/// integration evaluates anything.
pub struct InnerIntegral<'a, A: Float, F: Integrand2, G: RangeFn, Alg: Algorithm> {
    pub fl: &'a A,
    pub f: &'a mut F,
    /// the range of the inner coordinate at each outer coordinate
    pub inner_range: &'a G,
    /// whether the outer coordinate is the second
    pub swap: bool,
    pub algorithm: Alg,
    pub tolerance: Tolerance,
    /// the inner coordinates of the singular points
    pub points: Points,
    pub budget: usize,
    /// the evaluations counted so far
    pub nevals: usize,
    /// the error of an inner integration
    pub error: Option<RuntimeError>,
}

impl<'a, A: Float, F: Integrand2, G: RangeFn, Alg: Algorithm> InnerIntegral<'a, A, F, G, Alg> where
    for <'b>Alg: Described<A, Section<'b, F>>,
 {
    /// The evaluations that an inner integration may make: what is left of
    /// the budget, and none after an error.
    pub open spec fn allowance(&self) -> usize {
        if self.error.is_some() {
            0
        } else {
            (self.budget - self.nevals) as usize
        }
    }

    /// The error that is kept when an inner integration ends with `e`: the
    /// one that was there first.
    pub open spec fn first_error(&self, e: Option<RuntimeError>) -> Option<RuntimeError> {
        if self.error.is_some() {
            self.error
        } else {
            e
        }
    }

    /// Whether an inner integration at the outer coordinate `x` over `range`,
    /// with this tolerance, these singular points and the allowance for its
    /// evaluations, may return `res` and leave the integrand as `after`: the
    /// algorithm is handed the function of two coordinates with the outer
    /// coordinate fixed at `x`, the evaluations are counted, and the first
    /// error is kept.
    pub open spec fn integrated(
        &self,
        x: Double,
        range: Range,
        res: IntegrationResult,
        after: &Self,
    ) -> bool {
        &&& exists|config: IntegrationConfig, section: Section<'a, F>, left: Section<'a, F>|
            #![trigger self.algorithm.runs(self.fl, section, range, config, res, &after.algorithm, left)]
            {
                &&& self.algorithm.runs(
                    self.fl,
                    section,
                    range,
                    config,
                    res,
                    &after.algorithm,
                    left,
                )
                &&& self.algorithm.gives(range, config, res, &after.algorithm)
                &&& section.outer == x
                &&& section.swap == self.swap
                &&& *section.f == *self.f
                &&& config.tolerance == self.tolerance
                &&& config.max_evals == self.allowance()
                &&& config.points@ == self.points@
            }
        &&& res.value.nevals <= self.allowance()
        &&& after.nevals == self.nevals + res.value.nevals
        &&& after.error == self.first_error(res.error)
    }

    /// Whether `y` and `after` are what an evaluation may give where the
    /// range of the inner coordinate is `range`. A range with a NaN for an
    /// end gives a NaN and the error of a NaN, and is not integrated over.
    /// Any other range is integrated over: an estimate without an error is
    /// the value, and an error gives a NaN.
    pub open spec fn answers(&self, x: Double, range: Range, y: Double, after: &Self) -> bool {
        if range.begin.is_nan() || range.end.is_nan() {
            &&& y == Double::from_bits(NAN_BITS)
            &&& after.nevals == self.nevals
            &&& after.error == self.first_error(Some(RuntimeError::NanValueEncountered))
            &&& after.algorithm == self.algorithm
            &&& *after.f == *self.f
        } else {
            exists|res: IntegrationResult| #[trigger]
                self.integrated(x, range, res, after) && y == if res.error.is_some() {
                    Double::from_bits(NAN_BITS)
                } else {
                    res.value.estimate
                }
        }
    }
}

impl<'a, A: Float, F: Integrand2, G: RangeFn, Alg: Algorithm> Integrand for InnerIntegral<
    'a,
    A,
    F,
    G,
    Alg,
> where for <'b>Alg: Described<A, Section<'b, F>> {
    open spec fn inv(&self) -> bool {
        &&& self.points@.len() + 2 <= POINTS_LIMIT
        &&& self.nevals <= self.budget
    }

    /// What does not belong to the count stays, and `y` answers a range
    /// that the inner range gives at `x`.
    open spec fn yields(&self, x: Double, y: Double, after: &Self) -> bool {
        &&& after.swap == self.swap
        &&& after.tolerance == self.tolerance
        &&& after.points@ == self.points@
        &&& after.budget == self.budget
        &&& exists|range: Range| #[trigger]
            self.inner_range.gives(x, range) && self.answers(x, range, y, after)
    }

    /// The estimate of the inner integral at the outer coordinate `x`, or a
    /// NaN where the inner integration ends with an error or its range has a
    /// NaN for an end.
    fn apply(&mut self, x: Double) -> (y: Double) {
        let nan = Double::from_bits(NAN_BITS);
        let max_evals = if self.error.is_some() {
            0
        } else {
            self.budget - self.nevals
        };
        let range = self.inner_range.at(x);
        if range.begin.is_nan() || range.end.is_nan() {
            if self.error.is_none() {
                self.error = Some(RuntimeError::NanValueEncountered);
            }
            proof {
                assert(old(self).answers(x, range, nan, self));
            }
            return nan;
        }
        let config = IntegrationConfig {
            tolerance: self.tolerance,
            max_evals,
            points: self.points.clone(),
        };
        let mut section = Section { f: &mut *self.f, outer: x, swap: self.swap };
        let ghost handed = section;
        let result = self.algorithm.integrate_described(self.fl, &mut section, &range, &config);
        let ghost left = section;
        self.nevals += result.value.nevals;
        let y = match result.error {
            Some(e) => {
                if self.error.is_none() {
                    self.error = Some(e);
                }
                nan
            },
            None => result.value.estimate,
        };
        proof {
            assert(old(self).algorithm.runs(
                self.fl,
                handed,
                range,
                config,
                result,
                &self.algorithm,
                left,
            ));
            assert(old(self).integrated(x, range, result, self));
            assert(old(self).answers(x, range, y, self));
        }
        y
    }
}

/// The result of a nested integration whose outer integration has returned
/// `outer` and left the inner integral as `end`: the estimate and the error
/// estimate are those of the outer integration, the evaluations are those
/// that the inner integral has counted, no more than `budget`, and the first
/// error of an inner integration stands in place of that of the outer one.
pub open spec fn nested_result<'a, A: Float, F: Integrand2, G: RangeFn, Alg: Algorithm>(
    outer: IntegrationResult,
    end: InnerIntegral<'a, A, F, G, Alg>,
    budget: usize,
) -> IntegrationResult {
    ValueWithError {
        value: Solution {
            estimate: outer.value.estimate,
            delta: outer.value.delta,
            nevals: if end.nevals <= budget {
                end.nevals
            } else {
                budget
            },
        },
        error: if end.error.is_some() {
            end.error
        } else {
            outer.error
        },
    }
}

/// Whether `res` is what a nested integration of the function `before` of
/// two coordinates may return: the result of the integration, by `outer`
/// over `outer_range`, of the inner integral, which is integrated by `inner`
/// over the range that `inner_range` gives at each outer coordinate and
/// counts its evaluations, from none, against `budget`.
pub open spec fn nested<'a, A: Float + 'a, F: Integrand2 + 'a, G: RangeFn + 'a, Alg: Algorithm>(
    fl: &'a A,
    before: F,
    outer_range: Range,
    inner_range: &'a G,
    swap: bool,
    outer: Alg,
    inner: Alg,
    outer_config: IntegrationConfig,
    inner_points: Seq<Double>,
    budget: usize,
    res: IntegrationResult,
) -> bool where
    for <'b>Alg: Described<A, Section<'b, F>>,
    Alg: Described<A, InnerIntegral<'a, A, F, G, Alg>>,
 {
    exists|
        start: InnerIntegral<'a, A, F, G, Alg>,
        end: InnerIntegral<'a, A, F, G, Alg>,
        outer_res: IntegrationResult,
        outer_after: Alg,
    |
        #![trigger outer.runs(fl, start, outer_range, outer_config, outer_res, &outer_after, end)]
        {
            &&& outer.runs(fl, start, outer_range, outer_config, outer_res, &outer_after, end)
            &&& *start.f == before
            &&& start.fl == fl
            &&& start.inner_range == inner_range
            &&& start.swap == swap
            &&& start.algorithm == inner
            &&& start.tolerance == outer_config.tolerance
            &&& start.points@ == inner_points
            &&& start.budget == budget
            &&& start.nevals == 0
            &&& start.error.is_none()
            &&& res == nested_result(outer_res, end, budget)
        }
}

/// Integrates over the outer coordinate the integral over the inner one.
///
/// The result is that of the outer integration, with the first error of an
/// inner integration in place of its own where there is one. The number of
/// evaluations is that of the function of two coordinates, which stays within
/// `budget`.
pub fn integrate_nested<'a, A: Float + 'a, F: Integrand2 + 'a, G: RangeFn + 'a, Alg: Algorithm>(
    fl: &'a A,
    f: &'a mut F,
    outer_range: &Range,
    inner_range: &'a G,
    swap: bool,
    outer: Alg,
    inner: Alg,
    outer_config: &IntegrationConfig,
    inner_points: Points,
    budget: usize,
) -> (res: IntegrationResult) where
    for <'b>Alg: Described<A, Section<'b, F>>,
    Alg: Described<A, InnerIntegral<'a, A, F, G, Alg>>,

    requires
        outer_range.wf(),
        outer_config.wf(),
        inner_points@.len() + 2 <= POINTS_LIMIT,
    ensures
        nested(
            fl,
            *old(f),
            *outer_range,
            inner_range,
            swap,
            outer,
            inner,
            *outer_config,
            inner_points@,
            budget,
            res,
        ),
        res.value.nevals <= budget,
        res.error.is_none() ==> outer_config.tolerance.admits(res.value.delta),
        res.error.is_none() ==> outer_config.tolerance.accepts(fl, res.value.delta),
{
    let mut outer = outer;
    let ghost given = outer;
    let mut integrand = InnerIntegral {
        fl,
        f,
        inner_range,
        swap,
        algorithm: inner,
        tolerance: outer_config.tolerance,
        points: inner_points,
        budget,
        nevals: 0,
        error: None,
    };
    let ghost start = integrand;
    let outer_res = outer.integrate_described(fl, &mut integrand, outer_range, outer_config);
    let mut result = outer_res;
    // the count is that of the inner integral, held to the budget
    result.value.nevals = if integrand.nevals <= budget {
        integrand.nevals
    } else {
        budget
    };
    if integrand.error.is_some() {
        result.error = integrand.error;
    }
    proof {
        assert(given.runs(fl, start, *outer_range, *outer_config, outer_res, &outer, integrand));
        assert(result == nested_result(outer_res, integrand, budget));
    }
    result
}

} // verus!
