//! An integrand bound to an algorithm and a configuration.

use vstd::prelude::*;
use crate::common::{IntegrationResult, Tolerance};
use crate::float::{Double, Float};
use crate::single::algorithm::{Algorithm, Described, AUTO};
use crate::single::common::{Integrand, IntegrationConfig, Range};
use crate::single::points::{Points, POINTS_LIMIT};

verus! {

/// Integration Executor
///
/// This object is useful when you want to re-use the configuration: it may be
/// run over one range after another. Nothing is assumed of the integrand from
/// one run to the next.
pub struct Integrator<F: Integrand, A: Algorithm> {
    integrand: F,
    algorithm: A,
    config: IntegrationConfig,
}

impl<F: Integrand> Integrator<F, AUTO> {
    /// An integrator with the default configuration that chooses its
    /// algorithm by the singular points.
    pub fn new(integrand: F) -> (r: Integrator<F, AUTO>)
        requires
            integrand.inv(),
        ensures
            r.integrand() == integrand,
            r.config().tolerance == Tolerance::standard(),
            r.config().max_evals == 2000,
            r.config().points@.len() == 0,
            r.wf(),
    {
        Self { integrand, algorithm: AUTO::new(), config: IntegrationConfig::default() }
    }
}

impl<F: Integrand, A: Algorithm> Integrator<F, A> {
    /// The configuration is well-formed, and the integrand is ready to be
    /// evaluated.
    pub open spec fn wf(&self) -> bool {
        self.config().wf() && self.integrand().inv()
    }

    /// The integrand.
    pub closed spec fn integrand(&self) -> F {
        self.integrand
    }

    /// The algorithm.
    pub closed spec fn spec_algorithm(&self) -> A {
        self.algorithm
    }

    /// The configuration.
    pub closed spec fn config(&self) -> IntegrationConfig {
        self.config
    }

    /// An integrator with the default configuration and the given algorithm.
    pub fn with_algorithm(integrand: F, algorithm: A) -> (r: Integrator<F, A>)
        requires
            integrand.inv(),
        ensures
            r.integrand() == integrand,
            r.spec_algorithm() == algorithm,
            r.config().tolerance == Tolerance::standard(),
            r.config().max_evals == 2000,
            r.config().points@.len() == 0,
            r.wf(),
    {
        Self { integrand, algorithm, config: IntegrationConfig::default() }
    }

    /// Set algorithm
    pub fn algorithm<B: Algorithm>(self, algorithm: B) -> (r: Integrator<F, B>)
        ensures
            self.wf() ==> r.wf(),
            r.integrand() == self.integrand(),
            r.spec_algorithm() == algorithm,
            r.config() == self.config(),
    {
        Integrator { integrand: self.integrand, algorithm, config: self.config }
    }

    /// Set tolerance, which must not contain a NaN.
    pub fn tolerance(self, t: Tolerance) -> (r: Self)
        requires
            !t.contains_nan(),
        ensures
            self.wf() ==> r.wf(),
            r.integrand() == self.integrand(),
            r.spec_algorithm() == self.spec_algorithm(),
            r.config().tolerance == t,
            r.config().max_evals == self.config().max_evals,
            r.config().points == self.config().points,
    {
        Integrator {
            integrand: self.integrand,
            algorithm: self.algorithm,
            config: IntegrationConfig {
                tolerance: t,
                max_evals: self.config.max_evals,
                points: self.config.points,
            },
        }
    }

    /// Set the most evaluations of the integrand that one run may make
    pub fn max_evals(self, max_evals: usize) -> (r: Self)
        ensures
            self.wf() ==> r.wf(),
            r.integrand() == self.integrand(),
            r.spec_algorithm() == self.spec_algorithm(),
            r.config().tolerance == self.config().tolerance,
            r.config().max_evals == max_evals,
            r.config().points == self.config().points,
    {
        Integrator {
            integrand: self.integrand,
            algorithm: self.algorithm,
            config: IntegrationConfig {
                tolerance: self.config.tolerance,
                max_evals,
                points: self.config.points,
            },
        }
    }

    /// Set singular points, none of which may be a NaN.
    pub fn points(self, pts: &Vec<Double>) -> (r: Self)
        requires
            forall|k: int| 0 <= k < pts@.len() ==> !(#[trigger] pts@[k]).is_nan(),
            pts@.len() + 2 <= POINTS_LIMIT,
        ensures
            self.wf() ==> r.wf(),
            r.integrand() == self.integrand(),
            r.spec_algorithm() == self.spec_algorithm(),
            r.config().tolerance == self.config().tolerance,
            r.config().max_evals == self.config().max_evals,
            r.config().points@ == pts@,
    {
        Integrator {
            integrand: self.integrand,
            algorithm: self.algorithm,
            config: IntegrationConfig {
                tolerance: self.config.tolerance,
                max_evals: self.config.max_evals,
                points: Points::from_vec(pts),
            },
        }
    }

    /// The algorithm, with what it keeps of the last run.
    pub fn get_algorithm(&self) -> (r: &A)
        ensures
            *r == self.spec_algorithm(),
    {
        &self.algorithm
    }

    /// Estimates the integral over `range` with the algorithm and the
    /// configuration of the integrator.
    pub fn run<R: Float>(&mut self, fl: &R, range: &Range) -> (res: IntegrationResult) where
        A: Described<R, F>,

        requires
            old(self).wf(),
            range.wf(),
        ensures
            final(self).wf(),
            res.value.nevals <= old(self).config().max_evals,
            res.error.is_none() ==> old(self).config().tolerance.admits(res.value.delta),
            res.error.is_none() ==> old(self).config().tolerance.accepts(fl, res.value.delta),
            final(self).config() == old(self).config(),
            old(self).spec_algorithm().gives(
                *range,
                old(self).config(),
                res,
                &final(self).spec_algorithm(),
            ),
            old(self).spec_algorithm().runs(
                fl,
                old(self).integrand(),
                *range,
                old(self).config(),
                res,
                &final(self).spec_algorithm(),
                final(self).integrand(),
            ),
    {
        self.algorithm.integrate_described(fl, &mut self.integrand, range, &self.config)
    }
}

} // verus!
