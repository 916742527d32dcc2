//! QAGP in both coordinates.

use vstd::prelude::*;
use crate::common::IntegrationResult;
use crate::double::algorithm::nested::{integrate_nested, nested};
use crate::double::algorithm::{Algorithm2, Described2};
use crate::double::common::{Integrand2, IntegrationConfig2};
use crate::double::range::{Constant, DynamicX, DynamicY, RangeFn, Rectangle};
use crate::float::{Double, Float};
use crate::single::algorithm::QAGP;
use crate::single::common::{IntegrationConfig, Range};

verus! {

/// QAGP in both coordinates: the outer integration is cut at the first
/// coordinates of the singular points, each inner integration at the second.
#[derive(Clone, Copy, Debug, PartialEq, Eq, Hash)]
pub struct QAGP2;

/// The coordinates at which the outer integration is cut: the first
/// coordinates of the singular points, or the second with `swap`.
pub open spec fn cut_points(config: IntegrationConfig2, swap: bool) -> Seq<Double> {
    if swap {
        config.points.ys@
    } else {
        config.points.xs@
    }
}

/// The coordinates at which each inner integration is cut: the second
/// coordinates of the singular points, or the first with `swap`.
pub open spec fn held_points(config: IntegrationConfig2, swap: bool) -> Seq<Double> {
    if swap {
        config.points.xs@
    } else {
        config.points.ys@
    }
}

/// Whether `res` is what `QAGP2` may return for the integral, over
/// `outer_range`, of the integral of the function `before` over the range
/// that `inner_range` gives at each outer coordinate: the result of a nested
/// integration by two algorithms with empty workspaces, of which the outer
/// may make `max_evals / 17` evaluations of the inner integral;
/// the outer integration is cut at the outer coordinates of the singular
/// points, and each inner integration at the inner ones.
pub open spec fn qagp2_over<'a, A: Float + 'a, F: Integrand2 + 'a, G: RangeFn + 'a>(
    fl: &'a A,
    before: F,
    outer_range: Range,
    inner_range: &'a G,
    swap: bool,
    config: IntegrationConfig2,
    res: IntegrationResult,
) -> bool {
    exists|outer: QAGP, inner: QAGP, outer_config: IntegrationConfig|
        #![trigger nested(fl, before, outer_range, inner_range, swap, outer, inner, outer_config, held_points(config, swap), config.max_evals, res)]
        {
            &&& nested(
                fl,
                before,
                outer_range,
                inner_range,
                swap,
                outer,
                inner,
                outer_config,
                held_points(config, swap),
                config.max_evals,
                res,
            )
            &&& outer.finite.workspace.wf()
            &&& outer.finite.workspace.subranges@.len() == 0
            &&& inner.finite.workspace.wf()
            &&& inner.finite.workspace.subranges@.len() == 0
            &&& outer_config.tolerance == config.tolerance
            &&& outer_config.max_evals == config.max_evals / 17
            &&& outer_config.points@ == cut_points(config, swap)
        }
}

impl QAGP2 {
    pub fn new() -> (r: Self) {
        QAGP2
    }

    /// Integrates over `outer_range` the integral over the range that
    /// `inner_range` gives at each outer coordinate. With `swap` set the
    /// outer coordinate is the second of the integrand.
    pub fn integrate_over<'a, A: Float + 'a, F: Integrand2 + 'a, G: RangeFn + 'a>(
        fl: &'a A,
        f: &'a mut F,
        outer_range: &Range,
        inner_range: &'a G,
        swap: bool,
        config: &IntegrationConfig2,
    ) -> (res: IntegrationResult)
        requires
            outer_range.wf(),
            config.wf(),
        ensures
            qagp2_over(fl, *old(f), *outer_range, inner_range, swap, *config, res),
            res.value.nevals <= config.max_evals,
            res.error.is_none() ==> config.tolerance.admits(res.value.delta),
            res.error.is_none() ==> config.tolerance.accepts(fl, res.value.delta),
    {
        let (outer_points, held) = if swap {
            (config.points.ys.clone(), config.points.xs.clone())
        } else {
            (config.points.xs.clone(), config.points.ys.clone())
        };
        let outer_config = IntegrationConfig {
            tolerance: config.tolerance,
            max_evals: config.max_evals / 17,
            points: outer_points,
        };
        let outer = QAGP::new();
        let inner = QAGP::new();
        let inner_points = held;
        let res = integrate_nested(
            fl,
            f,
            outer_range,
            inner_range,
            swap,
            outer,
            inner,
            &outer_config,
            inner_points,
            config.max_evals,
        );
        proof {
            assert(nested(
                fl,
                *old(f),
                *outer_range,
                inner_range,
                swap,
                outer,
                inner,
                outer_config,
                held_points(*config, swap),
                config.max_evals,
                res,
            ));
        }
        res
    }
}

impl Algorithm2<Rectangle> for QAGP2 {
    /// Integrates over the rectangle, `y` within `x`.
    fn integrate<A: Float, F: Integrand2>(
        &mut self,
        fl: &A,
        f: &mut F,
        range: &Rectangle,
        config: &IntegrationConfig2,
    ) -> (res: IntegrationResult)
        ensures
            qagp2_over(fl, *old(f), range.xrange, &(Constant { range: range.yrange }), false, *config, res),
            res.error.is_none() ==> config.tolerance.accepts(fl, res.value.delta),
    {
        let inner = Constant { range: range.yrange };
        QAGP2::integrate_over(fl, f, &range.xrange, &inner, false, config)
    }
}

impl<A: Float, F: Integrand2> Described2<A, F, Rectangle> for QAGP2 {
    open spec fn runs(
        &self,
        fl: &A,
        before: F,
        range: &Rectangle,
        config: IntegrationConfig2,
        res: IntegrationResult,
    ) -> bool {
        qagp2_over(fl, before, range.xrange, &(Constant { range: range.yrange }), false, config, res)
    }

    fn integrate_described(
        &mut self,
        fl: &A,
        f: &mut F,
        range: &Rectangle,
        config: &IntegrationConfig2,
    ) -> (res: IntegrationResult) {
        self.integrate(fl, f, range, config)
    }
}

impl<G: RangeFn> Algorithm2<DynamicX<G>> for QAGP2 {
    /// Integrates over `y` the integral over the range of `x` at each `y`.
    fn integrate<A: Float, F: Integrand2>(
        &mut self,
        fl: &A,
        f: &mut F,
        range: &DynamicX<G>,
        config: &IntegrationConfig2,
    ) -> (res: IntegrationResult)
        ensures
            qagp2_over(fl, *old(f), range.yrange, &range.xrange, true, *config, res),
            res.error.is_none() ==> config.tolerance.accepts(fl, res.value.delta),
    {
        QAGP2::integrate_over(fl, f, &range.yrange, &range.xrange, true, config)
    }
}

impl<A: Float, F: Integrand2, G: RangeFn> Described2<A, F, DynamicX<G>> for QAGP2 {
    open spec fn runs(
        &self,
        fl: &A,
        before: F,
        range: &DynamicX<G>,
        config: IntegrationConfig2,
        res: IntegrationResult,
    ) -> bool {
        qagp2_over(fl, before, range.yrange, &range.xrange, true, config, res)
    }

    fn integrate_described(
        &mut self,
        fl: &A,
        f: &mut F,
        range: &DynamicX<G>,
        config: &IntegrationConfig2,
    ) -> (res: IntegrationResult) {
        self.integrate(fl, f, range, config)
    }
}

impl<G: RangeFn> Algorithm2<DynamicY<G>> for QAGP2 {
    /// Integrates over `x` the integral over the range of `y` at each `x`.
    fn integrate<A: Float, F: Integrand2>(
        &mut self,
        fl: &A,
        f: &mut F,
        range: &DynamicY<G>,
        config: &IntegrationConfig2,
    ) -> (res: IntegrationResult)
        ensures
            qagp2_over(fl, *old(f), range.xrange, &range.yrange, false, *config, res),
            res.error.is_none() ==> config.tolerance.accepts(fl, res.value.delta),
    {
        QAGP2::integrate_over(fl, f, &range.xrange, &range.yrange, false, config)
    }
}

impl<A: Float, F: Integrand2, G: RangeFn> Described2<A, F, DynamicY<G>> for QAGP2 {
    open spec fn runs(
        &self,
        fl: &A,
        before: F,
        range: &DynamicY<G>,
        config: IntegrationConfig2,
        res: IntegrationResult,
    ) -> bool {
        qagp2_over(fl, before, range.xrange, &range.yrange, false, config, res)
    }

    fn integrate_described(
        &mut self,
        fl: &A,
        f: &mut F,
        range: &DynamicY<G>,
        config: &IntegrationConfig2,
    ) -> (res: IntegrationResult) {
        self.integrate(fl, f, range, config)
    }
}

impl Default for QAGP2 {
    fn default() -> (r: Self) {
        QAGP2
    }
}

} // verus!
