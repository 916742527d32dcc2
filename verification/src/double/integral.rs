//! Integration over two coordinates in one call.

use vstd::prelude::*;
use crate::common::{IntegrationResult, Tolerance};
use crate::double::algorithm::{Described2, QAGS2};
use crate::double::common::{Integrand2, IntegrationConfig2};
use crate::double::range::Range2;
use crate::float::Float;

verus! {

/// Performs integration using `QAGS2` algorithm and the default
/// configuration, which achieves greate performance for many kinds of
/// functions.
pub fn integral2<A: Float, F: Integrand2, R: Range2>(
    fl: &A,
    f: F,
    r: &R,
) -> (res: IntegrationResult) where QAGS2: Described2<A, F, R>
    requires
        r.wf(),
    ensures
        exists|config: IntegrationConfig2| #[trigger]
            Described2::<A, F, R>::runs(&QAGS2, fl, f, r, config, res) && config.tolerance
                == Tolerance::standard() && config.max_evals == 2000 && config.points.xs@.len()
                == 0,
        res.value.nevals <= 2000,
        res.error.is_none() ==> Tolerance::standard().admits(res.value.delta),
        res.error.is_none() ==> Tolerance::standard().accepts(fl, res.value.delta),
{
    let ghost given = f;
    let mut f = f;
    let config = IntegrationConfig2::default();
    let res = QAGS2::new().integrate_described(fl, &mut f, r, &config);
    proof {
        assert(Described2::<A, F, R>::runs(&QAGS2, fl, given, r, config, res));
    }
    res
}

/// Performs the integration with custom configuration
pub fn integral2_with_config<A: Float, F: Integrand2, R: Range2>(
    fl: &A,
    f: F,
    r: &R,
    config: &IntegrationConfig2,
) -> (res: IntegrationResult) where QAGS2: Described2<A, F, R>
    requires
        r.wf(),
        config.wf(),
    ensures
        Described2::<A, F, R>::runs(&QAGS2, fl, f, r, *config, res),
        res.value.nevals <= config.max_evals,
        res.error.is_none() ==> config.tolerance.admits(res.value.delta),
        res.error.is_none() ==> config.tolerance.accepts(fl, res.value.delta),
{
    let mut f = f;
    QAGS2::new().integrate_described(fl, &mut f, r, config)
}

} // verus!
