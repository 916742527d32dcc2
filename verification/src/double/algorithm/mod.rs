//! Algorithms for 2-dimentional numerical integration

use vstd::prelude::*;
use crate::common::IntegrationResult;
use crate::double::common::{Integrand2, IntegrationConfig2};
use crate::double::range::Range2;
use crate::float::Float;

pub mod auto;
pub mod nested;
pub mod qag;
pub mod qagp;
pub mod qags;

pub use crate::double::algorithm::auto::AUTO2;
pub use crate::double::algorithm::qag::QAG2;
pub use crate::double::algorithm::qagp::QAGP2;
pub use crate::double::algorithm::qags::QAGS2;

verus! {

/// 2-dimentional integration algorithm API
pub trait Algorithm2<R: Range2> {
    /// Estimates the integral of `f` over `range` to the tolerance of
    /// `config`, with at most `config.max_evals` evaluations of `f`. A
    /// result without an error has an error estimate that the tolerance
    /// admits.
    fn integrate<A: Float, F: Integrand2>(
        &mut self,
        fl: &A,
        f: &mut F,
        range: &R,
        config: &IntegrationConfig2,
    ) -> (res: IntegrationResult)
        requires
            range.wf(),
            config.wf(),
        ensures
            res.value.nevals <= config.max_evals,
            res.error.is_none() ==> config.tolerance.admits(res.value.delta),
    ;
}

/// A 2-dimentional algorithm that says what it returns for the values of the
/// integrand `F` in the arithmetic `A`.
pub trait Described2<A: Float, F: Integrand2, R: Range2>: Algorithm2<R> {
    /// Whether an integration of the integrand `before` over `range` with
    /// `config`, made with this algorithm in the arithmetic `fl`, may return
    /// `res`.
    spec fn runs(
        &self,
        fl: &A,
        before: F,
        range: &R,
        config: IntegrationConfig2,
        res: IntegrationResult,
    ) -> bool;

    /// Estimates the integral as `integrate` does, and says what it returns:
    /// see `runs`.
    fn integrate_described(
        &mut self,
        fl: &A,
        f: &mut F,
        range: &R,
        config: &IntegrationConfig2,
    ) -> (res: IntegrationResult)
        requires
            range.wf(),
            config.wf(),
        ensures
            res.value.nevals <= config.max_evals,
            res.error.is_none() ==> config.tolerance.admits(res.value.delta),
            res.error.is_none() ==> config.tolerance.accepts(fl, res.value.delta),
            old(self).runs(fl, *old(f), range, *config, res),
    ;
}

} // verus!
