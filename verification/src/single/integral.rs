//! Integration in one call.

use vstd::prelude::*;
use crate::common::{IntegrationResult, Tolerance};
use crate::error::RuntimeError;
use crate::float::Float;
use crate::single::algorithm::qag::{failed_transform, nevals_within};
use crate::single::algorithm::auto::auto_front;
use crate::single::algorithm::qags::qags_front;
use crate::single::algorithm::{Algorithm, AUTO, QAGS};
use crate::single::common::{Integrand, IntegrationConfig, Range};
use crate::single::workspace::WorkSpace;

verus! {

/// Performs integration using `QAGS` algorithm and the default
/// configuration, which achieves great performance for many kinds of
/// functions.
///
/// The result is that of `QAGS`, begun with an empty workspace, for the
/// default tolerance, 2000 evaluations and no singular point.
pub fn integral<A: Float, F: Integrand>(fl: &A, f: F, range: &Range) -> (res: IntegrationResult)
    requires
        f.inv(),
        range.wf(),
    ensures
        exists|config: IntegrationConfig, ws0: WorkSpace, after: F, ws1: WorkSpace|
            #![trigger qags_front(fl, f, ws0, *range, config, res, after, ws1)]
            {
                &&& qags_front(fl, f, ws0, *range, config, res, after, ws1)
                &&& config.tolerance == Tolerance::standard()
                &&& config.max_evals == 2000
                &&& config.points@.len() == 0
                &&& ws0.wf()
                &&& ws0.subranges@.len() == 0
            },
        nevals_within(res.value.nevals, 2000) || (!range.finite() && failed_transform(res)),
        res.error.is_none() ==> Tolerance::standard().admits(res.value.delta),
        res.error.is_none() ==> Tolerance::standard().accepts(fl, res.value.delta),
        res.error == Some(RuntimeError::InsufficientIteration) ==> res.value.nevals > 1950,
{
    let mut f = f;
    let mut algorithm = QAGS::new();
    let config = IntegrationConfig::default();
    let ghost start = algorithm;
    let ghost given = f;
    let res = algorithm.integrate(fl, &mut f, range, &config);
    proof {
        assert(qags_front(
            fl,
            given,
            start.finite.workspace,
            *range,
            config,
            res,
            f,
            algorithm.finite.workspace,
        ));
    }
    res
}

/// Performs the integration with custom configuration.
///
/// The algorithm is selected by the configuration: `QAGP` where it names
/// singular points, `QAGS` where it names none. The result is that of the
/// algorithm, begun with empty workspaces.
pub fn integral_with_config<A: Float, F: Integrand>(
    fl: &A,
    f: F,
    range: &Range,
    config: IntegrationConfig,
) -> (res: IntegrationResult)
    requires
        f.inv(),
        range.wf(),
        config.wf(),
    ensures
        exists|start: AUTO, after: F, end: AUTO|
            #![trigger auto_front(fl, f, start, *range, config, res, after, end)]
            {
                &&& auto_front(fl, f, start, *range, config, res, after, end)
                &&& start.qags.finite.workspace.wf()
                &&& start.qags.finite.workspace.subranges@.len() == 0
                &&& start.qagp.finite.workspace.wf()
                &&& start.qagp.finite.workspace.subranges@.len() == 0
            },
        res.value.nevals <= config.max_evals,
        res.error.is_none() ==> config.tolerance.admits(res.value.delta),
        res.error.is_none() ==> config.tolerance.accepts(fl, res.value.delta),
{
    let mut f = f;
    let mut algorithm = AUTO::new();
    let ghost start = algorithm;
    let ghost given = f;
    let res = algorithm.integrate(fl, &mut f, range, &config);
    proof {
        assert(auto_front(fl, given, start, *range, config, res, f, algorithm));
    }
    res
}

} // verus!
