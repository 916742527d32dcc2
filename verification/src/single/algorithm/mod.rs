//! Algorithms for 1-dimentional numerical integration

use vstd::prelude::*;
use crate::common::IntegrationResult;
use crate::float::Float;
use crate::single::common::{Integrand, IntegrationConfig, Range};

pub mod auto;
pub mod initial;
pub mod qag;
pub mod qagp;
pub mod qags;
pub mod reconcile;
pub mod roundoff;
pub mod search;

pub use crate::single::algorithm::auto::AUTO;
pub use crate::single::algorithm::initial::{initial_integral, initial_step, Initial, InitialStep};
pub use crate::single::algorithm::qag::{QAG, QAG_FINITE};
pub use crate::single::algorithm::qagp::{QAGP, QAGP_FINITE};
pub use crate::single::algorithm::qags::{QAGS, QAGS_FINITE};

verus! {

/// 1-dimentional integration algorithm API
pub trait Algorithm {
    /// Whether an integration over `range` with `config`, made with this
    /// algorithm, may return `res` and leave the algorithm as `after`. An
    /// algorithm that says nothing of its results leaves every outcome open.
    open spec fn gives(
        &self,
        range: Range,
        config: IntegrationConfig,
        res: IntegrationResult,
        after: &Self,
    ) -> bool {
        true
    }

    /// Estimates the integral of `f` over `range` to the tolerance of
    /// `config`, with at most `config.max_evals` evaluations of `f`. A
    /// result without an error has an error estimate that the tolerance
    /// admits.
    fn integrate<A: Float, F: Integrand>(
        &mut self,
        fl: &A,
        f: &mut F,
        range: &Range,
        config: &IntegrationConfig,
    ) -> (res: IntegrationResult)
        requires
            old(f).inv(),
            range.wf(),
            config.wf(),
        ensures
            final(f).inv(),
            res.value.nevals <= config.max_evals,
            res.error.is_none() ==> config.tolerance.admits(res.value.delta),
            old(self).gives(*range, *config, res, final(self)),
    ;
}

/// An algorithm that says what it returns for the values of the integrand
/// `F` in the arithmetic `A`.
pub trait Described<A: Float, F: Integrand>: Algorithm {
    /// Whether an integration of the integrand `before` over `range` with
    /// `config`, made with this algorithm in the arithmetic `fl`, may return
    /// `res` and leave the algorithm as `after` and the integrand as
    /// `integrand`.
    spec fn runs(
        &self,
        fl: &A,
        before: F,
        range: Range,
        config: IntegrationConfig,
        res: IntegrationResult,
        after: &Self,
        integrand: F,
    ) -> bool;

    /// Estimates the integral as `integrate` does, and says what it returns:
    /// see `runs`.
    fn integrate_described(
        &mut self,
        fl: &A,
        f: &mut F,
        range: &Range,
        config: &IntegrationConfig,
    ) -> (res: IntegrationResult)
        requires
            old(f).inv(),
            range.wf(),
            config.wf(),
        ensures
            final(f).inv(),
            res.value.nevals <= config.max_evals,
            res.error.is_none() ==> config.tolerance.admits(res.value.delta),
            res.error.is_none() ==> config.tolerance.accepts(fl, res.value.delta),
            old(self).gives(*range, *config, res, final(self)),
            old(self).runs(fl, *old(f), *range, *config, res, final(self), *final(f)),
    ;
}

} // verus!
