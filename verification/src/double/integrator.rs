//! A function of two coordinates bound to an algorithm and a configuration.

use vstd::prelude::*;
use crate::common::{IntegrationResult, Tolerance};
use crate::double::algorithm::{Described2, AUTO2};
use crate::double::common::{Integrand2, IntegrationConfig2, Point2, Points2};
use crate::double::range::Range2;
use crate::float::Float;
use crate::single::points::POINTS_LIMIT;

verus! {

/// 2-dimentional integration Executor
pub struct Integrator2<F: Integrand2, A> {
    integrand: F,
    algorithm: A,
    config: IntegrationConfig2,
}

impl<F: Integrand2> Integrator2<F, AUTO2> {
    /// An integrator with the default configuration that chooses its
    /// algorithm by the singular points.
    pub fn new(integrand: F) -> (r: Integrator2<F, AUTO2>)
        ensures
            r.integrand() == integrand,
            r.config().tolerance == Tolerance::standard(),
            r.config().max_evals == 2000,
            r.config().points.xs@.len() == 0,
            r.wf(),
    {
        Self { integrand, algorithm: AUTO2::new(), config: IntegrationConfig2::default() }
    }
}

impl<F: Integrand2, A> Integrator2<F, A> {
    /// The configuration is well-formed.
    pub open spec fn wf(&self) -> bool {
        self.config().wf()
    }

    /// The integrand.
    pub closed spec fn integrand(&self) -> F {
        self.integrand
    }

    /// The algorithm.
    pub closed spec fn spec_algorithm(&self) -> A {
        self.algorithm
    }

    /// The configuration.
    pub closed spec fn config(&self) -> IntegrationConfig2 {
        self.config
    }

    /// An integrator with the default configuration and the given algorithm.
    pub fn with_algorithm(integrand: F, algorithm: A) -> (r: Integrator2<F, A>)
        ensures
            r.integrand() == integrand,
            r.spec_algorithm() == algorithm,
            r.config().tolerance == Tolerance::standard(),
            r.config().max_evals == 2000,
            r.config().points.xs@.len() == 0,
            r.wf(),
    {
        Self { integrand, algorithm, config: IntegrationConfig2::default() }
    }

    /// Set algorithm
    pub fn algorithm<B>(self, algorithm: B) -> (r: Integrator2<F, B>)
        ensures
            self.wf() ==> r.wf(),
            r.integrand() == self.integrand(),
            r.spec_algorithm() == algorithm,
            r.config() == self.config(),
    {
        Integrator2 { integrand: self.integrand, algorithm, config: self.config }
    }

    /// Set tolerance, which must not contain a NaN.
    pub fn tolerance(self, t: Tolerance) -> (r: Self)
        requires
            !t.contains_nan(),
        ensures
            self.wf() ==> r.wf(),
            r.integrand() == self.integrand(),
            r.spec_algorithm() == self.spec_algorithm(),
            r.config().tolerance == t,
            r.config().max_evals == self.config().max_evals,
            r.config().points == self.config().points,
    {
        Integrator2 {
            integrand: self.integrand,
            algorithm: self.algorithm,
            config: IntegrationConfig2 {
                tolerance: t,
                max_evals: self.config.max_evals,
                points: self.config.points,
            },
        }
    }

    /// Set the most evaluations of the integrand that one run may make
    pub fn max_evals(self, max_evals: usize) -> (r: Self)
        ensures
            self.wf() ==> r.wf(),
            r.integrand() == self.integrand(),
            r.spec_algorithm() == self.spec_algorithm(),
            r.config().tolerance == self.config().tolerance,
            r.config().max_evals == max_evals,
            r.config().points == self.config().points,
    {
        Integrator2 {
            integrand: self.integrand,
            algorithm: self.algorithm,
            config: IntegrationConfig2 {
                tolerance: self.config.tolerance,
                max_evals,
                points: self.config.points,
            },
        }
    }

    /// Set singular points, no coordinate of which may be a NaN.
    pub fn points(self, pts: &Vec<Point2>) -> (r: Self)
        requires
            forall|k: int|
                0 <= k < pts@.len() ==> !(#[trigger] pts@[k]).0.is_nan() && !pts@[k].1.is_nan(),
            pts@.len() + 2 <= POINTS_LIMIT,
        ensures
            r.wf(),
            r.integrand() == self.integrand(),
            r.spec_algorithm() == self.spec_algorithm(),
            r.config().tolerance == self.config().tolerance,
            r.config().max_evals == self.config().max_evals,
            r.config().points@ == pts@,
    {
        Integrator2 {
            integrand: self.integrand,
            algorithm: self.algorithm,
            config: IntegrationConfig2 {
                tolerance: self.config.tolerance,
                max_evals: self.config.max_evals,
                points: Points2::from_vec(pts),
            },
        }
    }

    /// The algorithm.
    pub fn get_algorithm(&self) -> (r: &A)
        ensures
            *r == self.spec_algorithm(),
    {
        &self.algorithm
    }

    /// Estimates the integral over `range` with the algorithm and the
    /// configuration of the integrator.
    pub fn run<Fl: Float, R: Range2>(&mut self, fl: &Fl, range: &R) -> (res: IntegrationResult)
        where A: Described2<Fl, F, R>
        requires
            old(self).wf(),
            range.wf(),
        ensures
            final(self).wf(),
            final(self).config() == old(self).config(),
            res.value.nevals <= old(self).config().max_evals,
            res.error.is_none() ==> old(self).config().tolerance.admits(res.value.delta),
            res.error.is_none() ==> old(self).config().tolerance.accepts(fl, res.value.delta),
            old(self).spec_algorithm().runs(
                fl,
                old(self).integrand(),
                range,
                old(self).config(),
                res,
            ),
    {
        self.algorithm.integrate_described(fl, &mut self.integrand, range, &self.config)
    }
}

} // verus!
