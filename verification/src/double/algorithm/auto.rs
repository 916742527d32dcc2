//! The choice of an algorithm by the configuration.

use vstd::prelude::*;
use crate::common::IntegrationResult;
use crate::double::algorithm::qagp::QAGP2;
use crate::double::algorithm::qags::QAGS2;
use crate::double::algorithm::{Algorithm2, Described2};
use crate::double::common::{Integrand2, IntegrationConfig2};
use crate::double::range::{DynamicX, DynamicY, RangeFn, Rectangle};
use crate::float::Float;

verus! {

/// Automatically select algorithm based on configuration: `QAGS2` where it
/// names no singular point, `QAGP2` where it names one.
#[derive(Clone, Copy, Debug, PartialEq, Eq, Hash)]
pub struct AUTO2;

impl AUTO2 {
    pub fn new() -> (r: Self) {
        AUTO2
    }
}

impl Algorithm2<Rectangle> for AUTO2 {
    /// Integrates with `QAGS2` where the configuration names no singular
    /// point, and with `QAGP2` where it names one.
    fn integrate<A: Float, F: Integrand2>(
        &mut self,
        fl: &A,
        f: &mut F,
        range: &Rectangle,
        config: &IntegrationConfig2,
    ) -> (res: IntegrationResult)
        ensures
            if config.points.xs@.len() == 0 {
                Described2::<A, F, Rectangle>::runs(&QAGS2, fl, *old(f), range, *config, res)
            } else {
                Described2::<A, F, Rectangle>::runs(&QAGP2, fl, *old(f), range, *config, res)
            },
            res.error.is_none() ==> config.tolerance.accepts(fl, res.value.delta),
    {
        if config.points.is_empty() {
            QAGS2::new().integrate_described(fl, f, range, config)
        } else {
            QAGP2::new().integrate_described(fl, f, range, config)
        }
    }
}

impl<A: Float, F: Integrand2> Described2<A, F, Rectangle> for AUTO2 {
    open spec fn runs(
        &self,
        fl: &A,
        before: F,
        range: &Rectangle,
        config: IntegrationConfig2,
        res: IntegrationResult,
    ) -> bool {
        if config.points.xs@.len() == 0 {
            Described2::<A, F, Rectangle>::runs(&QAGS2, fl, before, range, config, res)
        } else {
            Described2::<A, F, Rectangle>::runs(&QAGP2, fl, before, range, config, res)
        }
    }

    fn integrate_described(
        &mut self,
        fl: &A,
        f: &mut F,
        range: &Rectangle,
        config: &IntegrationConfig2,
    ) -> (res: IntegrationResult) {
        self.integrate(fl, f, range, config)
    }
}

impl<G: RangeFn> Algorithm2<DynamicX<G>> for AUTO2 {
    /// Integrates with `QAGS2` where the configuration names no singular
    /// point, and with `QAGP2` where it names one.
    fn integrate<A: Float, F: Integrand2>(
        &mut self,
        fl: &A,
        f: &mut F,
        range: &DynamicX<G>,
        config: &IntegrationConfig2,
    ) -> (res: IntegrationResult)
        ensures
            if config.points.xs@.len() == 0 {
                Described2::<A, F, DynamicX<G>>::runs(&QAGS2, fl, *old(f), range, *config, res)
            } else {
                Described2::<A, F, DynamicX<G>>::runs(&QAGP2, fl, *old(f), range, *config, res)
            },
            res.error.is_none() ==> config.tolerance.accepts(fl, res.value.delta),
    {
        if config.points.is_empty() {
            QAGS2::new().integrate_described(fl, f, range, config)
        } else {
            QAGP2::new().integrate_described(fl, f, range, config)
        }
    }
}

impl<A: Float, F: Integrand2, G: RangeFn> Described2<A, F, DynamicX<G>> for AUTO2 {
    open spec fn runs(
        &self,
        fl: &A,
        before: F,
        range: &DynamicX<G>,
        config: IntegrationConfig2,
        res: IntegrationResult,
    ) -> bool {
        if config.points.xs@.len() == 0 {
            Described2::<A, F, DynamicX<G>>::runs(&QAGS2, fl, before, range, config, res)
        } else {
            Described2::<A, F, DynamicX<G>>::runs(&QAGP2, fl, before, range, config, res)
        }
    }

    fn integrate_described(
        &mut self,
        fl: &A,
        f: &mut F,
        range: &DynamicX<G>,
        config: &IntegrationConfig2,
    ) -> (res: IntegrationResult) {
        self.integrate(fl, f, range, config)
    }
}

impl<G: RangeFn> Algorithm2<DynamicY<G>> for AUTO2 {
    /// Integrates with `QAGS2` where the configuration names no singular
    /// point, and with `QAGP2` where it names one.
    fn integrate<A: Float, F: Integrand2>(
        &mut self,
        fl: &A,
        f: &mut F,
        range: &DynamicY<G>,
        config: &IntegrationConfig2,
    ) -> (res: IntegrationResult)
        ensures
            if config.points.xs@.len() == 0 {
                Described2::<A, F, DynamicY<G>>::runs(&QAGS2, fl, *old(f), range, *config, res)
            } else {
                Described2::<A, F, DynamicY<G>>::runs(&QAGP2, fl, *old(f), range, *config, res)
            },
            res.error.is_none() ==> config.tolerance.accepts(fl, res.value.delta),
    {
        if config.points.is_empty() {
            QAGS2::new().integrate_described(fl, f, range, config)
        } else {
            QAGP2::new().integrate_described(fl, f, range, config)
        }
    }
}

impl<A: Float, F: Integrand2, G: RangeFn> Described2<A, F, DynamicY<G>> for AUTO2 {
    open spec fn runs(
        &self,
        fl: &A,
        before: F,
        range: &DynamicY<G>,
        config: IntegrationConfig2,
        res: IntegrationResult,
    ) -> bool {
        if config.points.xs@.len() == 0 {
            Described2::<A, F, DynamicY<G>>::runs(&QAGS2, fl, before, range, config, res)
        } else {
            Described2::<A, F, DynamicY<G>>::runs(&QAGP2, fl, before, range, config, res)
        }
    }

    fn integrate_described(
        &mut self,
        fl: &A,
        f: &mut F,
        range: &DynamicY<G>,
        config: &IntegrationConfig2,
    ) -> (res: IntegrationResult) {
        self.integrate(fl, f, range, config)
    }
}

impl Default for AUTO2 {
    fn default() -> (r: Self) {
        AUTO2
    }
}

} // verus!
