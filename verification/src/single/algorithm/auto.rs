//! The choice of an algorithm by the configuration.

use vstd::prelude::*;
use crate::common::IntegrationResult;
use crate::float::Float;
use crate::single::algorithm::qagp::{qagp_front, QAGP};
use crate::single::algorithm::qags::{qags_front, QAGS};
use crate::single::algorithm::{Algorithm, Described};
use crate::single::common::{Integrand, IntegrationConfig, Range};

verus! {

/// Automatically select algorithm based on configuration
#[derive(Clone, Debug)]
pub struct AUTO {
    pub qags: QAGS,
    pub qagp: QAGP,
}

impl AUTO {
    pub fn new() -> (r: Self)
        ensures
            r.qags.finite.workspace.wf(),
            r.qags.finite.workspace.subranges@.len() == 0,
            r.qagp.finite.workspace.wf(),
            r.qagp.finite.workspace.subranges@.len() == 0,
    {
        Self { qags: QAGS::new(), qagp: QAGP::new() }
    }
}

/// Whether an integration by `AUTO`, made of the integrand `before`, may
/// return `res` and leave the integrand as `after`: that of `QAGS` where the
/// configuration names no singular point, and that of `QAGP` where it names
/// one. The other algorithm is left as it is.
pub open spec fn auto_front<A: Float, F: Integrand>(
    fl: &A,
    before: F,
    start: AUTO,
    range: Range,
    config: IntegrationConfig,
    res: IntegrationResult,
    after: F,
    end: AUTO,
) -> bool {
    if config.points@.len() == 0 {
        end.qagp == start.qagp && qags_front(
            fl,
            before,
            start.qags.finite.workspace,
            range,
            config,
            res,
            after,
            end.qags.finite.workspace,
        )
    } else {
        end.qags == start.qags && qagp_front(
            fl,
            before,
            start.qagp.finite.workspace,
            range,
            config,
            res,
            after,
            end.qagp.finite.workspace,
        )
    }
}

impl Algorithm for AUTO {
    /// What the integration promises whatever the integrand returns.
    open spec fn gives(
        &self,
        range: Range,
        config: IntegrationConfig,
        res: IntegrationResult,
        after: &Self,
    ) -> bool {
        if config.points@.len() == 0 {
            after.qagp == self.qagp && self.qags.gives(range, config, res, &after.qags)
        } else {
            after.qags == self.qags && self.qagp.gives(range, config, res, &after.qagp)
        }
    }

    /// Integrates with `QAGS` where the configuration names no singular
    /// point, and with `QAGP` where it names one. The other algorithm is left
    /// as it is.
    fn integrate<A: Float, F: Integrand>(
        &mut self,
        fl: &A,
        f: &mut F,
        range: &Range,
        config: &IntegrationConfig,
    ) -> (res: IntegrationResult)
        ensures
            auto_front(fl, *old(f), *old(self), *range, *config, res, *final(f), *final(self)),
    {
        if config.points.is_empty() {
            self.qags.integrate(fl, f, range, config)
        } else {
            self.qagp.integrate(fl, f, range, config)
        }
    }
}

impl<A: Float, F: Integrand> Described<A, F> for AUTO {
    open spec fn runs(
        &self,
        fl: &A,
        before: F,
        range: Range,
        config: IntegrationConfig,
        res: IntegrationResult,
        after: &Self,
        integrand: F,
    ) -> bool {
        auto_front(fl, before, *self, range, config, res, integrand, *after)
    }

    fn integrate_described(
        &mut self,
        fl: &A,
        f: &mut F,
        range: &Range,
        config: &IntegrationConfig,
    ) -> (res: IntegrationResult) {
        self.integrate(fl, f, range, config)
    }
}

impl Default for AUTO {
    fn default() -> (r: Self)
        ensures
            r.qags.finite.workspace.wf(),
            r.qagp.finite.workspace.wf(),
    {
        Self::new()
    }
}

} // verus!
