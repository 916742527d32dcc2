//! The first estimates over the whole range, before any bisection.

use vstd::prelude::*;
use crate::common::Solution;
use crate::error::RuntimeError;
use crate::float::{Double, Float, BITS_1024};
use crate::single::common::{Integrand, IntegrationConfig, Range};
use crate::single::qk::{qk17_mapped, qk25_mapped, rule17, rule25, rule_gives, QKResult, Rule};

verus! {

/// What follows an estimate over the whole range.
#[derive(Clone, Copy, Debug, PartialEq, Eq, Structural)]
pub enum InitialStep {
    /// The estimate meets the tolerance.
    Accept,
    /// The integration ends here with this error.
    Fail(RuntimeError),
    /// The estimate is close: the rule of the next order is tried on the
    /// whole range.
    Raise,
    /// The range is to be bisected.
    Refine,
}

/// What follows the estimate `result` of rule number `rule` (0 for the 17-point
/// rule, 1 for the 25-point rule), given the tolerance, the round-off floor and
/// the evaluation budget. The tests are made in this order:
///
/// 1. a NaN estimate ends the integration;
/// 2. an error estimate within the tolerance that is not merely the
///    deviation from the mean, or one of zero, is accepted;
/// 3. an error estimate above the tolerance but at or below the round-off
///    floor cannot be improved;
/// 4. a budget too small for the next rule and one bisection ends it;
/// 5. after the first rule an error estimate above `far`, 1024 times the
///    tolerance, goes to bisection at once; otherwise the second rule is tried;
/// 6. after the second rule the range is bisected.
pub open spec fn spec_initial_step(
    result: QKResult,
    tolerance: Double,
    round_off: Double,
    far: Double,
    max_evals: usize,
    rule: usize,
) -> InitialStep {
    if result.estimate.is_nan() {
        InitialStep::Fail(RuntimeError::NanValueEncountered)
    } else if (result.delta.le(tolerance) && result.delta.num_ne(result.asc))
        || result.delta.num_eq(Double::from_bits(0)) {
        InitialStep::Accept
    } else if result.delta.le(round_off) && result.delta.gt(tolerance) {
        InitialStep::Fail(RuntimeError::RoundoffError)
    } else if max_evals < 42 + rule * 25 {
        InitialStep::Fail(RuntimeError::InsufficientIteration)
    } else if rule == 0 && !result.delta.gt(far) {
        InitialStep::Raise
    } else {
        InitialStep::Refine
    }
}

/// What follows the estimate `result` of rule number `rule`: see
/// `spec_initial_step`.
#[verifier::when_used_as_spec(spec_initial_step)]
pub fn initial_step(
    result: QKResult,
    tolerance: Double,
    round_off: Double,
    far: Double,
    max_evals: usize,
    rule: usize,
) -> (step: InitialStep)
    requires
        rule <= 1,
    ensures
        step == spec_initial_step(result, tolerance, round_off, far, max_evals, rule),
{
    if result.estimate.is_nan() {
        InitialStep::Fail(RuntimeError::NanValueEncountered)
    } else if (result.delta.le(tolerance) && result.delta.num_ne(result.asc))
        || result.delta.num_eq(Double::from_bits(0)) {
        InitialStep::Accept
    } else if result.delta.le(round_off) && result.delta.gt(tolerance) {
        InitialStep::Fail(RuntimeError::RoundoffError)
    } else if max_evals < 42 + rule * 25 {
        InitialStep::Fail(RuntimeError::InsufficientIteration)
    } else if rule == 0 && !result.delta.gt(far) {
        InitialStep::Raise
    } else {
        InitialStep::Refine
    }
}

/// The outcome of the first estimates over the whole range.
#[derive(Clone, Copy, Debug)]
pub struct Initial {
    /// the estimate of the last rule that was applied, with the number of
    /// evaluations so far
    pub solution: Solution,
    /// the integral of the magnitude, by the last rule that was applied
    pub absvalue: Double,
    /// `Accept`, `Fail` or `Refine`
    pub step: InitialStep,
}

/// The rule with the number `rule`: the 17-point rule for 0, and the
/// 25-point rule otherwise.
pub open spec fn rule_of(rule: usize) -> Rule {
    if rule == 0 {
        rule17()
    } else {
        rule25()
    }
}

/// Whether `step` is what follows the result `q` of the rule with the number
/// `rule`, with the tolerance at the magnitude of its estimate, the
/// round-off floor `floor` times its integral of the magnitude, and 1024
/// times the tolerance, each as the arithmetic `fl` may give it.
pub open spec fn follows<A: Float>(
    fl: &A,
    config: IntegrationConfig,
    floor: Double,
    rule: usize,
    q: QKResult,
    step: InitialStep,
) -> bool {
    exists|tolerance: Double, round_off: Double, far: Double|
        #![trigger spec_initial_step(q, tolerance, round_off, far, config.max_evals, rule)]
        {
            &&& config.tolerance.is_absolute(fl, q.estimate.abs(), tolerance)
            &&& fl.is_product(floor, q.absvalue, round_off)
            &&& fl.is_product(tolerance, Double::from_bits(BITS_1024), far)
            &&& step == spec_initial_step(q, tolerance, round_off, far, config.max_evals, rule)
        }
}

/// Whether one evaluation of the rule with the number `rule` over `range`,
/// made of the integrand `before`, may give `q` and leave the integrand as
/// `after`, with `step` to follow.
pub open spec fn is_trial<A: Float, F: Integrand>(
    fl: &A,
    before: F,
    range: Range,
    config: IntegrationConfig,
    floor: Double,
    transform: bool,
    rule: usize,
    q: QKResult,
    step: InitialStep,
    after: F,
) -> bool {
    &&& rule_gives(fl, before, range, rule_of(rule), transform, q, after)
    &&& follows(fl, config, floor, rule, q, step)
}

/// The outcome of the first estimates where the last rule applied gave `q`
/// after `nevals` evaluations in all, with `step` to follow.
pub open spec fn initial_of(q: QKResult, nevals: usize, step: InitialStep) -> Initial {
    Initial {
        solution: Solution { estimate: q.estimate, delta: q.delta, nevals },
        absvalue: q.absvalue,
        step,
    }
}

/// Whether `r` and `after` are what the first estimates over `range`, made
/// of the integrand `before`, may give: the outcome of the 17-point rule
/// after 17 evaluations or, where that asks for the next rule, the outcome
/// of the 25-point rule after 42.
#[verifier::opaque]
pub open spec fn initial_gives<A: Float, F: Integrand>(
    fl: &A,
    before: F,
    range: Range,
    config: IntegrationConfig,
    floor: Double,
    transform: bool,
    r: Initial,
    after: F,
) -> bool {
    exists|q0: QKResult, step0: InitialStep, mid: F|
        #![trigger is_trial(fl, before, range, config, floor, transform, 0, q0, step0, mid)]
        {
            &&& is_trial(fl, before, range, config, floor, transform, 0, q0, step0, mid)
            &&& if step0 == InitialStep::Raise {
                exists|q1: QKResult| #[trigger]
                    is_trial(fl, mid, range, config, floor, transform, 1, q1, r.step, after) && r
                        == initial_of(q1, 42, r.step)
            } else {
                mid == after && r == initial_of(q0, 17, step0)
            }
        }
}

/// An estimate that is accepted at once has an error estimate that the
/// tolerance accepts.
pub proof fn lemma_accepted_at_once<A: Float, F: Integrand>(
    fl: &A,
    before: F,
    range: Range,
    config: IntegrationConfig,
    floor: Double,
    transform: bool,
    r: Initial,
    after: F,
)
    requires
        initial_gives(fl, before, range, config, floor, transform, r, after),
        r.step == InitialStep::Accept,
    ensures
        config.tolerance.accepts(fl, r.solution.delta),
{
    reveal(initial_gives);
    let (q0, step0, mid) = choose|q0: QKResult, step0: InitialStep, mid: F|
        #![trigger is_trial(fl, before, range, config, floor, transform, 0, q0, step0, mid)]
        {
            &&& is_trial(fl, before, range, config, floor, transform, 0, q0, step0, mid)
            &&& if step0 == InitialStep::Raise {
                exists|q1: QKResult| #[trigger]
                    is_trial(fl, mid, range, config, floor, transform, 1, q1, r.step, after) && r
                        == initial_of(q1, 42, r.step)
            } else {
                mid == after && r == initial_of(q0, 17, step0)
            }
        };
    if step0 == InitialStep::Raise {
        let q1 = choose|q1: QKResult| #[trigger]
            is_trial(fl, mid, range, config, floor, transform, 1, q1, r.step, after) && r
                == initial_of(q1, 42, r.step);
        lemma_follows_accepts(fl, config, floor, 1, q1);
    } else {
        lemma_follows_accepts(fl, config, floor, 0, q0);
    }
}

/// A result of a rule after which the integration is accepted has an error
/// estimate that the tolerance accepts.
proof fn lemma_follows_accepts<A: Float>(
    fl: &A,
    config: IntegrationConfig,
    floor: Double,
    rule: usize,
    q: QKResult,
)
    requires
        follows(fl, config, floor, rule, q, InitialStep::Accept),
    ensures
        config.tolerance.accepts(fl, q.delta),
{
    let (tolerance, round_off, far) = choose|tolerance: Double, round_off: Double, far: Double|
        #![trigger spec_initial_step(q, tolerance, round_off, far, config.max_evals, rule)]
        {
            &&& config.tolerance.is_absolute(fl, q.estimate.abs(), tolerance)
            &&& fl.is_product(floor, q.absvalue, round_off)
            &&& fl.is_product(tolerance, Double::from_bits(BITS_1024), far)
            &&& InitialStep::Accept == spec_initial_step(
                q,
                tolerance,
                round_off,
                far,
                config.max_evals,
                rule,
            )
        };
    if !q.delta.num_eq(Double::from_bits(0)) {
        assert(q.delta.le(tolerance));
        assert(config.tolerance.meets(fl, q.estimate.abs(), q.delta));
    }
}

/// One evaluation of the rule with the number `rule` over the whole range,
/// and what follows it.
fn trial<A: Float, F: Integrand>(
    fl: &A,
    f: &mut F,
    range: &Range,
    config: &IntegrationConfig,
    floor: Double,
    transform: bool,
    rule: usize,
) -> (r: (QKResult, InitialStep))
    requires
        old(f).inv(),
        rule <= 1,
    ensures
        final(f).inv(),
        is_trial(fl, *old(f), *range, *config, floor, transform, rule, r.0, r.1, *final(f)),
        r.1 == InitialStep::Accept ==> config.tolerance.admits(r.0.delta),
{
    let q = if rule == 0 {
        qk17_mapped(fl, f, range, transform)
    } else {
        qk25_mapped(fl, f, range, transform)
    };
    let tolerance = config.tolerance.to_abs(fl, q.estimate.abs());
    let round_off = fl.mul(floor, q.absvalue);
    let far = fl.mul(tolerance, Double::from_bits(BITS_1024));
    let step = initial_step(q, tolerance, round_off, far, config.max_evals, rule);
    proof {
        assert(follows(fl, *config, floor, rule, q, step));
    }
    (q, step)
}

/// Estimates the integral over the whole range with the 17-point rule and,
/// where `initial_step` asks for it, with the 25-point rule. `floor` is the
/// factor that turns the integral of the magnitude into the round-off floor;
/// with `transform` set the integrand is taken through the substitution for
/// an infinite range.
pub fn initial_integral<A: Float, F: Integrand>(
    fl: &A,
    f: &mut F,
    range: &Range,
    config: &IntegrationConfig,
    floor: Double,
    transform: bool,
) -> (r: Initial)
    requires
        old(f).inv(),
        config.max_evals >= 17,
    ensures
        final(f).inv(),
        initial_gives(fl, *old(f), *range, *config, floor, transform, r, *final(f)),
        r.step != InitialStep::Raise,
        r.solution.nevals == 17 || r.solution.nevals == 42,
        r.solution.nevals <= config.max_evals,
        r.step == InitialStep::Refine ==> r.solution.nevals + 25 <= config.max_evals,
        r.step == InitialStep::Fail(RuntimeError::NanValueEncountered)
            <==> r.solution.estimate.is_nan(),
        r.step == InitialStep::Fail(RuntimeError::InsufficientIteration)
            ==> config.max_evals < r.solution.nevals + 25,
        r.step != InitialStep::Fail(RuntimeError::Divergent),
        r.step != InitialStep::Fail(RuntimeError::SubrangeTooSmall),
        r.step == InitialStep::Accept ==> config.tolerance.admits(r.solution.delta),
{
    proof {
        reveal(initial_gives);
    }
    let (q0, step0) = trial(fl, f, range, config, floor, transform, 0);
    let ghost mid = *f;
    match step0 {
        InitialStep::Raise => {
            let (q1, step1) = trial(fl, f, range, config, floor, transform, 1);
            let r = Initial {
                solution: Solution { estimate: q1.estimate, delta: q1.delta, nevals: 42 },
                absvalue: q1.absvalue,
                step: step1,
            };
            proof {
                assert(is_trial(
                    fl,
                    mid,
                    *range,
                    *config,
                    floor,
                    transform,
                    1,
                    q1,
                    r.step,
                    *f,
                ) && r == initial_of(q1, 42, r.step));
            }
            r
        },
        _ => {
            Initial {
                solution: Solution { estimate: q0.estimate, delta: q0.delta, nevals: 17 },
                absvalue: q0.absvalue,
                step: step0,
            }
        },
    }
}

} // verus!
