//! QAGS in both coordinates.

use vstd::prelude::*;
use crate::common::IntegrationResult;
use crate::double::algorithm::nested::{integrate_nested, nested};
use crate::double::algorithm::{Algorithm2, Described2};
use crate::double::common::{Integrand2, IntegrationConfig2};
use crate::double::range::{Constant, DynamicX, DynamicY, RangeFn, Rectangle};
use crate::float::{Double, Float};
use crate::single::algorithm::QAGS;
use crate::single::common::{IntegrationConfig, Range};
use crate::single::points::Points;

verus! {

/// QAGS in both coordinates. The outer integration may make a seventeenth of
/// the evaluations; the evaluations of the integrand are counted against the
/// budget.
#[derive(Clone, Copy, Debug, PartialEq, Eq, Hash)]
pub struct QAGS2;

/// Whether `res` is what `QAGS2` may return for the integral, over
/// `outer_range`, of the integral of the function `before` over the range
/// that `inner_range` gives at each outer coordinate: the result of a nested
/// integration by two algorithms with empty workspaces, of which the outer
/// may make `max_evals / 17` evaluations of the inner integral;
/// neither integration is cut at a singular point.
pub open spec fn qags2_over<'a, A: Float + 'a, F: Integrand2 + 'a, G: RangeFn + 'a>(
    fl: &'a A,
    before: F,
    outer_range: Range,
    inner_range: &'a G,
    swap: bool,
    config: IntegrationConfig2,
    res: IntegrationResult,
) -> bool {
    exists|outer: QAGS, inner: QAGS, outer_config: IntegrationConfig|
        #![trigger nested(fl, before, outer_range, inner_range, swap, outer, inner, outer_config, Seq::<Double>::empty(), config.max_evals, res)]
        {
            &&& nested(
                fl,
                before,
                outer_range,
                inner_range,
                swap,
                outer,
                inner,
                outer_config,
                Seq::<Double>::empty(),
                config.max_evals,
                res,
            )
            &&& outer.finite.workspace.wf()
            &&& outer.finite.workspace.subranges@.len() == 0
            &&& inner.finite.workspace.wf()
            &&& inner.finite.workspace.subranges@.len() == 0
            &&& outer_config.tolerance == config.tolerance
            &&& outer_config.max_evals == config.max_evals / 17
            &&& outer_config.points@ == Seq::<Double>::empty()
        }
}

impl QAGS2 {
    pub fn new() -> (r: Self) {
        QAGS2
    }

    /// Integrates over `outer_range` the integral over the range that
    /// `inner_range` gives at each outer coordinate. With `swap` set the
    /// outer coordinate is the second of the integrand.
    pub fn integrate_over<'a, A: Float + 'a, F: Integrand2 + 'a, G: RangeFn + 'a>(
        fl: &'a A,
        f: &'a mut F,
        outer_range: &Range,
        inner_range: &'a G,
        swap: bool,
        config: &IntegrationConfig2,
    ) -> (res: IntegrationResult)
        requires
            outer_range.wf(),
            config.wf(),
        ensures
            qags2_over(fl, *old(f), *outer_range, inner_range, swap, *config, res),
            res.value.nevals <= config.max_evals,
            res.error.is_none() ==> config.tolerance.admits(res.value.delta),
            res.error.is_none() ==> config.tolerance.accepts(fl, res.value.delta),
    {
        let outer_config = IntegrationConfig {
            tolerance: config.tolerance,
            max_evals: config.max_evals / 17,
            points: Points::new(),
        };
        let outer = QAGS::new();
        let inner = QAGS::new();
        let inner_points = Points::new();
        let res = integrate_nested(
            fl,
            f,
            outer_range,
            inner_range,
            swap,
            outer,
            inner,
            &outer_config,
            inner_points,
            config.max_evals,
        );
        proof {
            assert(nested(
                fl,
                *old(f),
                *outer_range,
                inner_range,
                swap,
                outer,
                inner,
                outer_config,
                Seq::<Double>::empty(),
                config.max_evals,
                res,
            ));
        }
        res
    }
}

impl Algorithm2<Rectangle> for QAGS2 {
    /// Integrates over the rectangle, `y` within `x`.
    fn integrate<A: Float, F: Integrand2>(
        &mut self,
        fl: &A,
        f: &mut F,
        range: &Rectangle,
        config: &IntegrationConfig2,
    ) -> (res: IntegrationResult)
        ensures
            qags2_over(fl, *old(f), range.xrange, &(Constant { range: range.yrange }), false, *config, res),
            res.error.is_none() ==> config.tolerance.accepts(fl, res.value.delta),
    {
        let inner = Constant { range: range.yrange };
        QAGS2::integrate_over(fl, f, &range.xrange, &inner, false, config)
    }
}

impl<A: Float, F: Integrand2> Described2<A, F, Rectangle> for QAGS2 {
    open spec fn runs(
        &self,
        fl: &A,
        before: F,
        range: &Rectangle,
        config: IntegrationConfig2,
        res: IntegrationResult,
    ) -> bool {
        qags2_over(fl, before, range.xrange, &(Constant { range: range.yrange }), false, config, res)
    }

    fn integrate_described(
        &mut self,
        fl: &A,
        f: &mut F,
        range: &Rectangle,
        config: &IntegrationConfig2,
    ) -> (res: IntegrationResult) {
        self.integrate(fl, f, range, config)
    }
}

impl<G: RangeFn> Algorithm2<DynamicX<G>> for QAGS2 {
    /// Integrates over `y` the integral over the range of `x` at each `y`.
    fn integrate<A: Float, F: Integrand2>(
        &mut self,
        fl: &A,
        f: &mut F,
        range: &DynamicX<G>,
        config: &IntegrationConfig2,
    ) -> (res: IntegrationResult)
        ensures
            qags2_over(fl, *old(f), range.yrange, &range.xrange, true, *config, res),
            res.error.is_none() ==> config.tolerance.accepts(fl, res.value.delta),
    {
        QAGS2::integrate_over(fl, f, &range.yrange, &range.xrange, true, config)
    }
}

impl<A: Float, F: Integrand2, G: RangeFn> Described2<A, F, DynamicX<G>> for QAGS2 {
    open spec fn runs(
        &self,
        fl: &A,
        before: F,
        range: &DynamicX<G>,
        config: IntegrationConfig2,
        res: IntegrationResult,
    ) -> bool {
        qags2_over(fl, before, range.yrange, &range.xrange, true, config, res)
    }

    fn integrate_described(
        &mut self,
        fl: &A,
        f: &mut F,
        range: &DynamicX<G>,
        config: &IntegrationConfig2,
    ) -> (res: IntegrationResult) {
        self.integrate(fl, f, range, config)
    }
}

impl<G: RangeFn> Algorithm2<DynamicY<G>> for QAGS2 {
    /// Integrates over `x` the integral over the range of `y` at each `x`.
    fn integrate<A: Float, F: Integrand2>(
        &mut self,
        fl: &A,
        f: &mut F,
        range: &DynamicY<G>,
        config: &IntegrationConfig2,
    ) -> (res: IntegrationResult)
        ensures
            qags2_over(fl, *old(f), range.xrange, &range.yrange, false, *config, res),
            res.error.is_none() ==> config.tolerance.accepts(fl, res.value.delta),
    {
        QAGS2::integrate_over(fl, f, &range.xrange, &range.yrange, false, config)
    }
}

impl<A: Float, F: Integrand2, G: RangeFn> Described2<A, F, DynamicY<G>> for QAGS2 {
    open spec fn runs(
        &self,
        fl: &A,
        before: F,
        range: &DynamicY<G>,
        config: IntegrationConfig2,
        res: IntegrationResult,
    ) -> bool {
        qags2_over(fl, before, range.xrange, &range.yrange, false, config, res)
    }

    fn integrate_described(
        &mut self,
        fl: &A,
        f: &mut F,
        range: &DynamicY<G>,
        config: &IntegrationConfig2,
    ) -> (res: IntegrationResult) {
        self.integrate(fl, f, range, config)
    }
}

impl Default for QAGS2 {
    fn default() -> (r: Self) {
        QAGS2
    }
}

} // verus!
