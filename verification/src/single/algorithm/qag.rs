//! Adaptive bisection of the subrange with the largest error estimate.
#![allow(non_camel_case_types)]

use vstd::prelude::*;
use crate::common::{IntegrationResult, Solution, ValueWithError};
use crate::error::RuntimeError;
use crate::float::{is_total, Double, Float, BITS_0_99, BITS_1E_5, FIFTY_EPSILON_BITS};
use crate::single::algorithm::reconcile::finish;
use crate::single::algorithm::roundoff::bisection_stalled;
use crate::single::algorithm::initial::{
    initial_gives,
    initial_integral,
    lemma_accepted_at_once,
    Initial,
    InitialStep,
};
use crate::single::algorithm::{Algorithm, Described};
use crate::single::common::{Integrand, IntegrationConfig, Range};
use crate::single::qk::{qk25_mapped, rule25, rule_gives, QKResult};
use crate::single::util::{
    bisect,
    is_image,
    is_midpoint,
    is_narrowness_limit,
    subrange_too_small,
    transform_range,
};
use crate::single::workspace::{SubRangeInfo, WorkSpace};

verus! {

/// The number of evaluations of a bisecting integration that has left
/// `records` records in its workspace: 17 or 42 for the first estimates, and
/// 50 for each bisection, of which all but possibly the last have added a
/// record.
pub open spec fn nevals_of_records(nevals: usize, records: nat) -> bool {
    &&& records >= 1
    &&& nevals == 17 + 50 * (records - 1) || nevals == 42 + 50 * (records - 1) || nevals == 17
        + 50 * records || nevals == 42 + 50 * records
}

/// What a bisecting integration with the configuration `config` promises of
/// its result `res` and of the workspace that it leaves:
///
/// * with a budget below 17 evaluations nothing is evaluated, and the
///   workspace stays as it was;
/// * otherwise the number of evaluations is 17 or 42 and 50 for each
///   bisection, within the budget;
/// * a result without an error has an error estimate that the tolerance
///   admits;
/// * `InsufficientIteration` is reported only where the budget does not
///   allow another bisection;
/// * the workspace either stays as it was or holds, well-formed, the
///   records of this integration.
pub open spec fn bisection_outcome(
    before: WorkSpace,
    after: WorkSpace,
    config: IntegrationConfig,
    res: IntegrationResult,
) -> bool {
    &&& config.max_evals < 17 ==> res == (ValueWithError {
        value: Solution::initial(),
        error: Some(RuntimeError::InsufficientIteration),
    }) && after == before
    &&& config.max_evals >= 17 ==> nevals_within(res.value.nevals, config.max_evals)
    &&& res.error.is_none() ==> config.tolerance.admits(res.value.delta)
    &&& res.error == Some(RuntimeError::InsufficientIteration) ==> config.max_evals
        < res.value.nevals + 50
    &&& after == before || (after.wf() && nevals_of_records(
        res.value.nevals,
        after.subranges@.len(),
    ))
}

/// The result of an integration whose range could not be transformed: the
/// arithmetic has given a NaN for an end of the transformed range.
pub open spec fn failed_transform(res: IntegrationResult) -> bool {
    res == (ValueWithError {
        value: Solution::initial(),
        error: Some(RuntimeError::NanValueEncountered),
    })
}

/// The number of evaluations that an integration with a budget of at least
/// 17 may report: 17 or 42 for the first estimates, then 50 for each
/// bisection, and never more than the budget.
pub open spec fn nevals_within(nevals: usize, max_evals: usize) -> bool {
    &&& 17 <= nevals <= max_evals
    &&& (nevals - 17) % 50 == 0 || (nevals - 42) % 50 == 0
}

/// The result that ends an integration at its first estimates.
pub open spec fn ended_at(first: Initial, error: Option<RuntimeError>) -> IntegrationResult {
    ValueWithError { value: first.solution, error }
}

/// What a bisecting integration carries from one bisection to the next.
#[derive(Clone, Copy, Debug, PartialEq, Eq)]
pub struct Bisection {
    /// the sum of the estimates over the subranges, kept up by differences
    pub area: Double,
    /// the sum of the error estimates over the subranges
    pub deltasum: Double,
    /// bisections that changed neither the estimate nor the error estimate
    pub type1: usize,
    /// other bisections whose halves are uncertain
    pub type2: usize,
    /// the evaluations so far
    pub nevals: usize,
}

/// What the arithmetic gave in one bisection. A value that the bisection did
/// not ask for is zero, or `false`.
#[derive(Clone, Copy, Debug, PartialEq, Eq)]
pub struct Halves {
    /// the sum of the estimates over the two halves
    pub area12: Double,
    /// the sum of their error estimates
    pub delta12: Double,
    /// `delta12` less the error estimate of the bisected subrange
    pub delta_gain: Double,
    /// the new sum of the error estimates
    pub deltasum: Double,
    /// `area12` less the estimate of the bisected subrange
    pub area_gain: Double,
    /// the new sum of the estimates
    pub area: Double,
    /// the estimate of the bisected subrange less `area12`
    pub drift: Double,
    /// `1e-5` times the magnitude of `area12`
    pub slack: Double,
    /// 99% of the error estimate of the bisected subrange
    pub shrunk: Double,
    /// the tolerance at the magnitude of `area`
    pub tolerance: Double,
    /// whether the halves are too narrow to be bisected again
    pub narrow: bool,
    /// the sum of the estimates of all records
    pub total: Double,
    /// `total` less the estimate of the bisected subrange
    pub less: Double,
    /// `less` plus the estimate over the first half
    pub with_first: Double,
    /// `with_first` plus the estimate over the second half
    pub sum: Double,
}

/// What follows a bisection.
#[derive(Clone, Copy, Debug, PartialEq, Eq)]
pub enum Refined {
    /// An estimate over a half is a NaN: the integration ends with the
    /// records as they were.
    Nan,
    /// The integration ends with this result, and the records as they were.
    Failed(IntegrationResult),
    /// The halves have taken the place of the subrange, and the integration
    /// has this to carry on with. The flag says whether the sum of the error
    /// estimates now meets the tolerance.
    Kept(Bisection, bool),
}

/// Whether the deviation from the mean differs from the error estimate on
/// both halves, so that the bisection counts for the tests on round-off.
pub open spec fn uncertain(q1: QKResult, q2: QKResult) -> bool {
    q1.asc.num_ne(q1.delta) && q2.asc.num_ne(q2.delta)
}

/// The counts of stalled and of other uncertain bisections after one more.
pub open spec fn counted(st: Bisection, q1: QKResult, q2: QKResult, h: Halves) -> (usize, usize) {
    if !uncertain(q1, q2) {
        (st.type1, st.type2)
    } else if h.drift.abs().le(h.slack) && h.delta12.ge(h.shrunk) {
        ((st.type1 + 1) as usize, st.type2)
    } else {
        (st.type1, (st.type2 + 1) as usize)
    }
}

/// Whether the counts of round-off are too high to go on.
pub open spec fn excessive(counts: (usize, usize)) -> bool {
    counts.0 >= 6 || counts.1 >= 20
}

/// What follows the bisection of the record `info` into halves with the
/// results `q1` and `q2`, given what the arithmetic has made of them:
///
/// 1. a NaN estimate ends the integration;
/// 2. where the sum of the error estimates exceeds the tolerance, too much
///    round-off, or else halves too narrow to bisect, end it with the sum of
///    the estimates, the halves in place of the subrange;
/// 3. otherwise the halves are kept.
pub open spec fn spec_refined(
    st: Bisection,
    q1: QKResult,
    q2: QKResult,
    h: Halves,
) -> Refined {
    let counts = counted(st, q1, q2, h);
    let nevals = (st.nevals + 50) as usize;
    if q1.estimate.is_nan() || q2.estimate.is_nan() {
        Refined::Nan
    } else if h.deltasum.gt(h.tolerance) && excessive(counts) {
        Refined::Failed(
            ValueWithError {
                value: Solution { estimate: h.sum, delta: h.deltasum, nevals },
                error: Some(RuntimeError::RoundoffError),
            },
        )
    } else if h.deltasum.gt(h.tolerance) && h.narrow {
        Refined::Failed(
            ValueWithError {
                value: Solution { estimate: h.sum, delta: h.deltasum, nevals },
                error: Some(RuntimeError::SubrangeTooSmall),
            },
        )
    } else {
        Refined::Kept(
            Bisection {
                area: h.area,
                deltasum: h.deltasum,
                type1: counts.0,
                type2: counts.1,
                nevals,
            },
            h.deltasum.le(h.tolerance),
        )
    }
}

/// Whether `narrow` is what the test on the width of the halves `r1` and
/// `r2` may give in the arithmetic `fl`.
pub open spec fn is_narrowness<A: Float>(fl: &A, r1: Range, r2: Range, narrow: bool) -> bool {
    exists|limit: Double| #[trigger]
        is_narrowness_limit(fl, r1.end, limit) && narrow == (r1.begin.abs().le(limit)
            && r2.end.abs().le(limit))
}

/// Whether `h` holds what the arithmetic `fl` may give in the bisection of
/// the record `info`, with `estimates` the estimates of all records, into
/// halves with the results `q1` and `q2`: the sums over the halves, the new
/// sums over all subranges, and the tolerance at the new estimate; for
/// uncertain halves what the test on a stalled bisection compares; the test
/// on the width where the tolerance is not met and round-off is not
/// excessive; and the sum of the estimates where the integration fails.
pub open spec fn bisection_sums<A: Float>(
    fl: &A,
    estimates: Seq<Double>,
    st: Bisection,
    info: SubRangeInfo,
    r1: Range,
    r2: Range,
    q1: QKResult,
    q2: QKResult,
    config: IntegrationConfig,
    h: Halves,
) -> bool {
    q1.estimate.is_nan() || q2.estimate.is_nan() || {
        &&& fl.is_sum(q1.estimate, q2.estimate, h.area12)
        &&& fl.is_sum(q1.delta, q2.delta, h.delta12)
        &&& fl.is_difference(h.delta12, info.delta, h.delta_gain)
        &&& fl.is_sum(st.deltasum, h.delta_gain, h.deltasum)
        &&& fl.is_difference(h.area12, info.estimate, h.area_gain)
        &&& fl.is_sum(st.area, h.area_gain, h.area)
        &&& uncertain(q1, q2) ==> {
            &&& fl.is_difference(info.estimate, h.area12, h.drift)
            &&& fl.is_product(Double::from_bits(BITS_1E_5), h.area12.abs(), h.slack)
            &&& fl.is_product(Double::from_bits(BITS_0_99), info.delta, h.shrunk)
        }
        &&& config.tolerance.is_absolute(fl, h.area.abs(), h.tolerance)
        &&& h.deltasum.gt(h.tolerance) && !excessive(counted(st, q1, q2, h)) ==> is_narrowness(
            fl,
            r1,
            r2,
            h.narrow,
        )
        &&& spec_refined(st, q1, q2, h) is Failed ==> {
            &&& is_total(fl, estimates, h.total)
            &&& fl.is_difference(h.total, info.estimate, h.less)
            &&& fl.is_sum(h.less, q1.estimate, h.with_first)
            &&& fl.is_sum(h.with_first, q2.estimate, h.sum)
        }
    }
}

/// The record of a half of the record `info`, with the result `q` of the
/// rule over its range `r`: one level deeper.
pub open spec fn half_record(info: SubRangeInfo, r: Range, q: QKResult) -> SubRangeInfo {
    SubRangeInfo { range: r, estimate: q.estimate, delta: q.delta, level: (info.level + 1) as usize }
}

/// Decides what follows the bisection of the record under the cursor of `ws`
/// into `r1` and `r2`, over which the rule has given `q1` and `q2`, and keeps
/// the halves in `ws` where the integration goes on: see `spec_refined`. The
/// second part of the result is what the arithmetic gave on the way.
pub fn refine<A: Float>(
    fl: &A,
    ws: &mut WorkSpace,
    st: Bisection,
    r1: Range,
    r2: Range,
    q1: QKResult,
    q2: QKResult,
    config: &IntegrationConfig,
) -> (r: (Refined, Halves))
    requires
        old(ws).wf(),
        old(ws).aligned(),
        old(ws).levels_bounded(),
        old(ws).subranges@.len() < usize::MAX,
        st.type1 < usize::MAX,
        st.type2 < usize::MAX,
        st.nevals <= usize::MAX - 50,
    ensures
        bisection_sums(
            fl,
            old(ws).estimates(),
            st,
            old(ws).subranges@[old(ws).i as int],
            r1,
            r2,
            q1,
            q2,
            *config,
            r.1,
        ),
        r.0 == spec_refined(st, q1, q2, r.1),
        r.0 is Kept ==> old(ws).updated(
            half_record(old(ws).subranges@[old(ws).i as int], r1, q1),
            half_record(old(ws).subranges@[old(ws).i as int], r2, q2),
            *final(ws),
        ) && final(ws).wf() && final(ws).levels_bounded(),
        !(r.0 is Kept) ==> *final(ws) == *old(ws),
        match r.0 {
            Refined::Kept(next, met) => met ==> config.tolerance.accepts(fl, next.deltasum),
            _ => true,
        },
{
    let zero = Double::from_bits(0);
    let mut h = Halves {
        area12: zero,
        delta12: zero,
        delta_gain: zero,
        deltasum: zero,
        area_gain: zero,
        area: zero,
        drift: zero,
        slack: zero,
        shrunk: zero,
        tolerance: zero,
        narrow: false,
        total: zero,
        less: zero,
        with_first: zero,
        sum: zero,
    };
    if q1.estimate.is_nan() || q2.estimate.is_nan() {
        return (Refined::Nan, h);
    }
    let info = *ws.get();
    let nevals = st.nevals + 50;

    // replace the estimates of the range by the sums over its halves
    h.area12 = fl.add(q1.estimate, q2.estimate);
    h.delta12 = fl.add(q1.delta, q2.delta);
    h.delta_gain = fl.sub(h.delta12, info.delta);
    h.deltasum = fl.add(st.deltasum, h.delta_gain);
    h.area_gain = fl.sub(h.area12, info.estimate);
    h.area = fl.add(st.area, h.area_gain);

    // In theory the deviation from the mean and the error estimate differ;
    // where round-off makes them equal, the half is not counted.
    let mut type1 = st.type1;
    let mut type2 = st.type2;
    if q1.asc.num_ne(q1.delta) && q2.asc.num_ne(q2.delta) {
        h.drift = fl.sub(info.estimate, h.area12);
        h.slack = fl.mul(Double::from_bits(BITS_1E_5), h.area12.abs());
        h.shrunk = fl.mul(Double::from_bits(BITS_0_99), info.delta);
        if bisection_stalled(h.drift, h.slack, h.delta12, h.shrunk) {
            type1 += 1;
        } else {
            type2 += 1;
        }
    }
    h.tolerance = config.tolerance.to_abs(fl, h.area.abs());

    // With much round-off and no convergence, end at once.
    if h.deltasum.gt(h.tolerance) {
        let mut error: Option<RuntimeError> = None;
        if type1 >= 6 || type2 >= 20 {
            error = Some(RuntimeError::RoundoffError);
        } else {
            h.narrow = subrange_too_small(fl, r1.begin, r1.end, r2.end);
            if h.narrow {
                error = Some(RuntimeError::SubrangeTooSmall);
            }
        }
        if error.is_some() {
            h.total = ws.sum_results(fl);
            h.less = fl.sub(h.total, info.estimate);
            h.with_first = fl.add(h.less, q1.estimate);
            h.sum = fl.add(h.with_first, q2.estimate);
            return (Refined::Failed(finish(h.sum, h.deltasum, nevals, error)), h);
        }
    }
    // keep the results of the halves

    let level = info.level + 1;
    ws.update(
        SubRangeInfo::new(r1, q1.estimate, q1.delta, level),
        SubRangeInfo::new(r2, q2.estimate, q2.delta, level),
    );
    let next = Bisection { area: h.area, deltasum: h.deltasum, type1, type2, nevals };
    proof {
        if h.deltasum.le(h.tolerance) {
            assert(config.tolerance.meets(fl, h.area.abs(), h.deltasum));
        }
    }
    (Refined::Kept(next, h.deltasum.le(h.tolerance)), h)
}

/// A bisecting integration between two bisections: the integrand, the
/// workspace, and what is carried on.
pub struct Stage<F> {
    pub f: F,
    pub ws: WorkSpace,
    pub st: Bisection,
}

/// Whether `r1` and `r2` are the two halves of `range` in the arithmetic
/// `fl`: they meet at its midpoint.
pub open spec fn halves<A: Float>(fl: &A, range: Range, r1: Range, r2: Range) -> bool {
    &&& r1.begin == range.begin
    &&& r1.end == r2.begin
    &&& r2.end == range.end
    &&& is_midpoint(fl, range, r1.end)
}

/// Whether the bisection does not end the integration: the halves are kept
/// and the tolerance is not met.
pub open spec fn goes_on(out: Refined) -> bool {
    match out {
        Refined::Kept(_, converged) => !converged,
        _ => false,
    }
}

/// Whether one bisection takes the integration from the stage `a` to the
/// stage `b`, with `out` to follow: the record under the cursor is bisected,
/// the 25-point rule is evaluated over the first half and then over the
/// second, and `out` is what `spec_refined` makes of the two results, with
/// the sums as the arithmetic `fl` gives them. Where the halves are kept,
/// the workspace is updated with their records; otherwise it stays.
#[verifier::opaque]
pub open spec fn bisects<A: Float, F: Integrand>(
    fl: &A,
    config: IntegrationConfig,
    transform: bool,
    a: Stage<F>,
    out: Refined,
    b: Stage<F>,
) -> bool {
    exists|r1: Range, r2: Range, q1: QKResult, q2: QKResult, mid: F, h: Halves|
        #![trigger rule_gives(fl, a.f, r1, rule25(), transform, q1, mid), rule_gives(fl, mid, r2, rule25(), transform, q2, b.f), spec_refined(a.st, q1, q2, h)]
        {
            let info = a.ws.subranges@[a.ws.i as int];
            &&& halves(fl, info.range, r1, r2)
            &&& rule_gives(fl, a.f, r1, rule25(), transform, q1, mid)
            &&& rule_gives(fl, mid, r2, rule25(), transform, q2, b.f)
            &&& bisection_sums(fl, a.ws.estimates(), a.st, info, r1, r2, q1, q2, config, h)
            &&& out == spec_refined(a.st, q1, q2, h)
            &&& match out {
                Refined::Kept(next, _) => b.st == next && a.ws.updated(
                    half_record(info, r1, q1),
                    half_record(info, r2, q2),
                    b.ws,
                ),
                _ => b.st == a.st && b.ws == a.ws,
            }
        }
}

/// Whether the bisections with the outcomes `outs` take the integration
/// through `stages`, and none but the last ends it.
#[verifier::opaque]
pub open spec fn chained<A: Float, F: Integrand>(
    fl: &A,
    config: IntegrationConfig,
    transform: bool,
    stages: Seq<Stage<F>>,
    outs: Seq<Refined>,
) -> bool {
    &&& stages.len() == outs.len() + 1
    &&& forall|k: int|
        0 <= k < outs.len() ==> bisects(
            fl,
            config,
            transform,
            stages[k],
            #[trigger] outs[k],
            stages[k + 1],
        )
    &&& forall|k: int| 0 <= k < outs.len() - 1 ==> goes_on(#[trigger] outs[k])
}

/// Whether `stage` is where the bisections begin after the first estimates
/// `first` over `range`: the integrand as they left it, one record for the
/// whole range under the cursor, and their estimates for the sums.
pub open spec fn starts<F>(stage: Stage<F>, mid: F, range: Range, first: Initial) -> bool {
    &&& stage.f == mid
    &&& stage.st == (Bisection {
        area: first.solution.estimate,
        deltasum: first.solution.delta,
        type1: 0,
        type2: 0,
        nevals: first.solution.nevals,
    })
    &&& stage.ws.subranges@ == seq![
        (SubRangeInfo {
            range,
            estimate: first.solution.estimate,
            delta: first.solution.delta,
            level: 0,
        }),
    ]
    &&& stage.ws.order@ == seq![0usize]
    &&& stage.ws.nrmax == 0
    &&& stage.ws.i == 0
    &&& stage.ws.maximum_level == 0
}

/// The bisections that the budget allows after the first estimates.
pub open spec fn bisections_allowed(config: IntegrationConfig, first: Initial) -> int {
    (config.max_evals - first.solution.nevals) / 50
}

/// Whether `res` is the result of an integration that ends at the stage
/// `last` after the bisections with the outcomes `outs`. A bisection that
/// fails gives the result. Otherwise the estimate is the sum of the
/// estimates of the records, added up anew, with the sum of the error
/// estimates that was carried on; the error is that of a NaN after a NaN,
/// none where the tolerance is met, and `InsufficientIteration` where the
/// budget allows no further bisection.
pub open spec fn closes<A: Float, F: Integrand>(
    fl: &A,
    config: IntegrationConfig,
    first: Initial,
    last: Stage<F>,
    outs: Seq<Refined>,
    res: IntegrationResult,
) -> bool {
    if outs.len() > 0 && outs.last() is Failed {
        outs.last() == Refined::Failed(res)
    } else {
        &&& is_total(fl, last.ws.estimates(), res.value.estimate)
        &&& res.value.delta == last.st.deltasum
        &&& if outs.len() > 0 && outs.last() is Nan {
            res.value.nevals == last.st.nevals + 50 && res.error == Some(
                RuntimeError::NanValueEncountered,
            )
        } else if outs.len() > 0 && !goes_on(outs.last()) {
            res.value.nevals == last.st.nevals && res.error.is_none()
        } else {
            res.value.nevals == last.st.nevals && res.error == Some(
                RuntimeError::InsufficientIteration,
            ) && outs.len() == bisections_allowed(config, first)
        }
    }
}

/// Whether `res`, `after` and `ws1` are what the bisections that follow the
/// first estimates `first` may give: a chain of bisections from where the
/// first estimates ended, no longer than the budget allows, with the result
/// that closes it.
pub open spec fn refines<A: Float, F: Integrand>(
    fl: &A,
    mid: F,
    range: Range,
    config: IntegrationConfig,
    transform: bool,
    first: Initial,
    res: IntegrationResult,
    after: F,
    ws1: WorkSpace,
) -> bool {
    exists|stages: Seq<Stage<F>>, outs: Seq<Refined>| #[trigger]
        chained(fl, config, transform, stages, outs) && {
            &&& starts(stages[0], mid, range, first)
            &&& outs.len() <= bisections_allowed(config, first)
            &&& after == stages.last().f
            &&& ws1 == stages.last().ws
            &&& closes(fl, config, first, stages.last(), outs, res)
        }
}

/// Whether `res`, `after` and `ws1` are what follows the test on the budget.
/// With a budget below 17 evaluations the integrand is left as it was.
/// Otherwise the first estimates are made over the whole range. Where they
/// accept or fail, the result is theirs, and the workspace and the integrand
/// are left as the first estimates left them. Where they ask for bisection,
/// the bisections follow: see `refines`.
pub open spec fn qag_follows<A: Float, F: Integrand>(
    fl: &A,
    before: F,
    ws0: WorkSpace,
    range: Range,
    config: IntegrationConfig,
    transform: bool,
    res: IntegrationResult,
    after: F,
    ws1: WorkSpace,
) -> bool {
    if config.max_evals < 17 {
        after == before
    } else {
        exists|first: Initial, mid: F| #[trigger]
            initial_gives(
                fl,
                before,
                range,
                config,
                Double::from_bits(FIFTY_EPSILON_BITS),
                transform,
                first,
                mid,
            ) && match first.step {
                InitialStep::Accept => res == ended_at(first, None) && after == mid && ws1 == ws0,
                InitialStep::Fail(e) => res == ended_at(first, Some(e)) && after == mid && ws1
                    == ws0,
                _ => refines(fl, mid, range, config, transform, first, res, after, ws1),
            }
    }
}

/// One more bisection prolongs a chain none of whose bisections has ended
/// the integration.
proof fn lemma_chained<A: Float, F: Integrand>(
    fl: &A,
    config: IntegrationConfig,
    transform: bool,
    stages: Seq<Stage<F>>,
    outs: Seq<Refined>,
    out: Refined,
    b: Stage<F>,
)
    requires
        chained(fl, config, transform, stages, outs),
        outs.len() > 0 ==> goes_on(outs.last()),
        bisects(fl, config, transform, stages.last(), out, b),
    ensures
        chained(fl, config, transform, stages.push(b), outs.push(out)),
{
    reveal(chained);
    let longer = stages.push(b);
    let more = outs.push(out);
    assert forall|k: int| 0 <= k < more.len() implies bisects(
        fl,
        config,
        transform,
        longer[k],
        #[trigger] more[k],
        longer[k + 1],
    ) by {
        if k < outs.len() {
            assert(more[k] == outs[k]);
            assert(longer[k] == stages[k] && longer[k + 1] == stages[k + 1]);
        }
    }
    assert forall|k: int| 0 <= k < more.len() - 1 implies goes_on(#[trigger] more[k]) by {
        assert(more[k] == outs[k]);
    }
}

/// A chain of bisections from where the first estimates ended, with the
/// result that closes it, is what follows first estimates that ask for
/// bisection.
proof fn lemma_refines<A: Float, F: Integrand>(
    fl: &A,
    before: F,
    ws0: WorkSpace,
    range: Range,
    config: IntegrationConfig,
    transform: bool,
    first: Initial,
    mid: F,
    stages: Seq<Stage<F>>,
    outs: Seq<Refined>,
    res: IntegrationResult,
)
    requires
        config.max_evals >= 17,
        initial_gives(
            fl,
            before,
            range,
            config,
            Double::from_bits(FIFTY_EPSILON_BITS),
            transform,
            first,
            mid,
        ),
        first.step == InitialStep::Refine,
        chained(fl, config, transform, stages, outs),
        starts(stages[0], mid, range, first),
        outs.len() <= bisections_allowed(config, first),
        closes(fl, config, first, stages.last(), outs, res),
    ensures
        qag_follows(
            fl,
            before,
            ws0,
            range,
            config,
            transform,
            res,
            stages.last().f,
            stages.last().ws,
        ),
{
    assert(refines(
        fl,
        mid,
        range,
        config,
        transform,
        first,
        res,
        stages.last().f,
        stages.last().ws,
    ));
}

/// Whether an integration by `QAG_FINITE` over `range`, made of the
/// integrand `before` with the workspace `ws0`, may return `res` and leave
/// the integrand as `after` and the workspace as `ws1`. A result without an
/// error has an error estimate that the tolerance accepts.
pub open spec fn qag_run<A: Float, F: Integrand>(
    fl: &A,
    before: F,
    ws0: WorkSpace,
    range: Range,
    config: IntegrationConfig,
    transform: bool,
    res: IntegrationResult,
    after: F,
    ws1: WorkSpace,
) -> bool {
    &&& bisection_outcome(ws0, ws1, config, res)
    &&& res.error != Some(RuntimeError::Divergent)
    &&& res.error.is_none() ==> config.tolerance.accepts(fl, res.value.delta)
    &&& qag_follows(fl, before, ws0, range, config, transform, res, after, ws1)
}

/// The range that is integrated over in place of `range`, as the arithmetic
/// `fl` may give it: the range itself where it is finite, and its image in
/// the range from -1 to 1 where an end is infinite.
pub open spec fn is_mapped<A: Float>(fl: &A, range: Range, mapped: Range) -> bool {
    if range.finite() {
        mapped == range
    } else {
        is_image(fl, range.begin, mapped.begin) && is_image(fl, range.end, mapped.end)
    }
}

/// QAG algorithm over finite range: the subrange with the largest error
/// estimate is bisected until the sum of the error estimates meets the
/// tolerance.
#[derive(Clone, Debug)]
pub struct QAG_FINITE {
    pub workspace: WorkSpace,
}

impl QAG_FINITE {
    pub fn new() -> (r: Self)
        ensures
            r.workspace.wf(),
            r.workspace.subranges@.len() == 0,
    {
        Self { workspace: WorkSpace::new() }
    }

    /// An algorithm that works in the given workspace, whatever it holds.
    pub fn with_workspace(workspace: WorkSpace) -> (r: Self)
        ensures
            r.workspace == workspace,
    {
        Self { workspace }
    }

    /// Integrates `f` over `range`, which is taken to be finite.
    ///
    /// With a budget below 17 evaluations nothing is evaluated. Otherwise the
    /// number of evaluations stays within the budget, the workspace holds the
    /// subranges that were evaluated last, and the error, if any, is one of
    /// `NanValueEncountered`, `RoundoffError`, `SubrangeTooSmall` and
    /// `InsufficientIteration`.
    ///
    /// With `transform` set the integrand is taken through the substitution
    /// that maps the range from -1 to 1 onto the whole line.
    #[verifier::rlimit(40)]
    pub fn integrate_mapped<A: Float, F: Integrand>(
        &mut self,
        fl: &A,
        f: &mut F,
        range: &Range,
        config: &IntegrationConfig,
        transform: bool,
    ) -> (res: IntegrationResult)
        requires
            old(f).inv(),
            range.wf(),
            config.wf(),
        ensures
            qag_run(
                fl,
                *old(f),
                old(self).workspace,
                *range,
                *config,
                transform,
                res,
                *final(f),
                final(self).workspace,
            ),
            final(f).inv(),
    {
        let mut error: Option<RuntimeError> = None;

        if config.max_evals < 17 {
            return finish(
                Solution::default().estimate,
                Solution::default().delta,
                0,
                Some(RuntimeError::InsufficientIteration),
            );
        }
        // initial integral

        let first = initial_integral(
            fl,
            f,
            range,
            config,
            Double::from_bits(FIFTY_EPSILON_BITS),
            transform,
        );
        let ghost mid = *f;
        let result0 = first.solution;
        match first.step {
            InitialStep::Accept => {
                proof {
                    lemma_accepted_at_once(
                        fl,
                        *old(f),
                        *range,
                        *config,
                        Double::from_bits(FIFTY_EPSILON_BITS),
                        transform,
                        first,
                        mid,
                    );
                }
                return finish(result0.estimate, result0.delta, result0.nevals, None);
            },
            InitialStep::Fail(e) => {
                return finish(result0.estimate, result0.delta, result0.nevals, Some(e));
            },
            _ => {},
        }

        // the sums of the estimates and of the error estimates over the
        // subranges, the counts of round-off, and what times the integrand
        // was evaluated
        let mut st = Bisection {
            area: result0.estimate,
            deltasum: result0.delta,
            type1: 0,
            type2: 0,
            nevals: result0.nevals,
        };
        let mut nevals = result0.nevals;

        self.workspace.clear();
        self.workspace.reserve((config.max_evals - nevals) / 50 + 1);
        self.workspace.push(SubRangeInfo::new(*range, result0.estimate, result0.delta, 0));

        let max_iters = (config.max_evals - nevals) / 50;
        let mut iteration: usize = 0;
        let mut converged = false;
        let ghost mut stages: Seq<Stage<F>> = seq![Stage { f: *f, ws: self.workspace, st }];
        let ghost mut outs: Seq<Refined> = Seq::empty();
        proof {
            reveal(chained);
            assert(self.workspace.subranges@ =~= seq![
                (SubRangeInfo {
                    range: *range,
                    estimate: first.solution.estimate,
                    delta: first.solution.delta,
                    level: 0,
                }),
            ]);
            assert(self.workspace.order@ =~= seq![0usize]);
            assert(chained(fl, *config, transform, stages, outs));
        }
        while iteration < max_iters
            invariant_except_break
                error.is_none(),
                !converged,
                nevals == st.nevals,
                outs.len() == iteration,
                outs.len() > 0 ==> goes_on(outs.last()),
                self.workspace.aligned(),
                self.workspace.levels_bounded(),
            invariant
                f.inv(),
                initial_gives(
                    fl,
                    *old(f),
                    *range,
                    *config,
                    Double::from_bits(FIFTY_EPSILON_BITS),
                    transform,
                    first,
                    mid,
                ),
                first.step == InitialStep::Refine,
                first.solution == result0,
                config.max_evals >= 17,
                iteration <= max_iters,
                self.workspace.subranges@.len() == iteration + 1,
                st.nevals == result0.nevals + 50 * iteration,
                max_iters == (config.max_evals - result0.nevals) / 50,
                result0.nevals == 17 || result0.nevals == 42,
                result0.nevals <= config.max_evals,
                self.workspace.wf(),
                st.type1 <= iteration,
                st.type2 <= iteration,
                chained(fl, *config, transform, stages, outs),
                stages.len() == outs.len() + 1,
                starts(stages[0], mid, *range, first),
                stages.last() == (Stage { f: *f, ws: self.workspace, st }),
                outs.len() <= max_iters,
            ensures
                error.is_none() || error == Some(RuntimeError::NanValueEncountered),
                error.is_some() ==> outs.len() > 0 && outs.last() is Nan && nevals == st.nevals
                    + 50 && iteration < max_iters,
                error.is_none() ==> nevals == st.nevals,
                error.is_none() && converged ==> outs.len() > 0 && outs.last() is Kept && !goes_on(
                    outs.last(),
                ) && config.tolerance.admits(st.deltasum) && config.tolerance.accepts(
                    fl,
                    st.deltasum,
                ),
                error.is_none() && !converged ==> outs.len() == max_iters && iteration
                    == max_iters && (outs.len() > 0 ==> goes_on(outs.last())),
            decreases max_iters - iteration,
        {
            // the subrange with the largest error estimate
            let info = *self.workspace.get();
            let ghost a = Stage { f: *f, ws: self.workspace, st };

            // bisect it
            let (r1, r2) = bisect(fl, &info.range);

            // Gauss-Kronrod integration over each half
            let result1 = qk25_mapped(fl, f, &r1, transform);
            let ghost between = *f;
            let result2 = qk25_mapped(fl, f, &r2, transform);

            let (out, h) = refine(fl, &mut self.workspace, st, r1, r2, result1, result2, config);
            proof {
                let b = Stage {
                    f: *f,
                    ws: self.workspace,
                    st: match out {
                        Refined::Kept(next, _) => next,
                        _ => st,
                    },
                };
                assert(bisects(fl, *config, transform, a, out, b)) by {
                    reveal(bisects);
                    assert(halves(fl, info.range, r1, r2));
                    assert(rule_gives(fl, a.f, r1, rule25(), transform, result1, between)
                        && rule_gives(fl, between, r2, rule25(), transform, result2, b.f) && out
                        == spec_refined(a.st, result1, result2, h));
                }
                lemma_chained(fl, *config, transform, stages, outs, out, b);
                assert(stages.push(b)[0] == stages[0]);
                stages = stages.push(b);
                outs = outs.push(out);
            }
            match out {
                Refined::Nan => {
                    nevals += 50;
                    error = Some(RuntimeError::NanValueEncountered);
                    break ;
                },
                Refined::Failed(res) => {
                    proof {
                        lemma_refines(
                            fl,
                            *old(f),
                            old(self).workspace,
                            *range,
                            *config,
                            transform,
                            first,
                            mid,
                            stages,
                            outs,
                            res,
                        );
                    }
                    return res;
                },
                Refined::Kept(next, met) => {
                    proof {
                        if met {
                            assert(config.tolerance.admits(next.deltasum));
                        }
                    }
                    st = next;
                    nevals = st.nevals;
                    iteration += 1;
                    if met {
                        converged = true;
                        break ;
                    }
                },
            }
        }

        if error.is_none() && !converged {
            error = Some(RuntimeError::InsufficientIteration);
        }
        // add the estimates up again for the exact sum

        let res = finish(self.workspace.sum_results(fl), st.deltasum, nevals, error);
        proof {
            lemma_refines(
                fl,
                *old(f),
                old(self).workspace,
                *range,
                *config,
                transform,
                first,
                mid,
                stages,
                outs,
                res,
            );
        }
        res
    }
}

impl Algorithm for QAG_FINITE {
    /// What the integration promises whatever the integrand returns.
    open spec fn gives(
        &self,
        range: Range,
        config: IntegrationConfig,
        res: IntegrationResult,
        after: &Self,
    ) -> bool {
        bisection_outcome(self.workspace, after.workspace, config, res) && res.error != Some(
            RuntimeError::Divergent,
        )
    }

    /// Integrates `f` over `range`, which is taken to be finite.
    ///
    /// With a budget below 17 evaluations nothing is evaluated. Otherwise the
    /// number of evaluations stays within the budget, the workspace holds the
    /// subranges that were evaluated last, and the error, if any, is one of
    /// `NanValueEncountered`, `RoundoffError`, `SubrangeTooSmall` and
    /// `InsufficientIteration`.
    fn integrate<A: Float, F: Integrand>(
        &mut self,
        fl: &A,
        f: &mut F,
        range: &Range,
        config: &IntegrationConfig,
    ) -> (res: IntegrationResult)
        ensures
            qag_run(
                fl,
                *old(f),
                old(self).workspace,
                *range,
                *config,
                false,
                res,
                *final(f),
                final(self).workspace,
            ),
    {
        self.integrate_mapped(fl, f, range, config, false)
    }
}

/// Whether an integration by `QAG` over `range`, made of the integrand
/// `before` with the workspace `ws0`, may return `res` and leave the
/// integrand as `after` and the workspace as `ws1`. The range is mapped
/// where an end is infinite. Where the arithmetic gives a NaN for an end of
/// the mapped range, the integration fails at once and leaves the workspace
/// and the integrand as they were. Otherwise see `qag_run`, over the
/// mapped range.
pub open spec fn qag_front<A: Float, F: Integrand>(
    fl: &A,
    before: F,
    ws0: WorkSpace,
    range: Range,
    config: IntegrationConfig,
    res: IntegrationResult,
    after: F,
    ws1: WorkSpace,
) -> bool {
    exists|mapped: Range| #[trigger]
        is_mapped(fl, range, mapped) && if mapped.wf() {
            qag_run(fl, before, ws0, mapped, config, !range.finite(), res, after, ws1)
        } else {
            failed_transform(res) && after == before && ws1 == ws0
        }
}

/// QAG algorithm: `QAG_FINITE` behind the substitution that maps an infinite
/// range to a finite one.
#[derive(Clone, Debug)]
pub struct QAG {
    pub finite: QAG_FINITE,
}

impl QAG {
    pub fn new() -> (r: Self)
        ensures
            r.finite.workspace.wf(),
            r.finite.workspace.subranges@.len() == 0,
    {
        Self { finite: QAG_FINITE::new() }
    }

    /// An algorithm that works in the given workspace, whatever it holds.
    pub fn with_workspace(workspace: WorkSpace) -> (r: Self)
        ensures
            r.finite.workspace == workspace,
    {
        Self { finite: QAG_FINITE::with_workspace(workspace) }
    }

    /// The workspace, with the subranges of the last integration.
    pub fn workspace(&self) -> (ws: &WorkSpace)
        ensures
            *ws == self.finite.workspace,
    {
        &self.finite.workspace
    }
}

impl Algorithm for QAG {
    /// What the integration promises whatever the integrand returns.
    open spec fn gives(
        &self,
        range: Range,
        config: IntegrationConfig,
        res: IntegrationResult,
        after: &Self,
    ) -> bool {
        (bisection_outcome(self.finite.workspace, after.finite.workspace, config, res) || (
        !range.finite() && failed_transform(res) && after.finite.workspace
            == self.finite.workspace)) && res.error != Some(RuntimeError::Divergent)
    }

    /// Integrates `f` over `range`. Where an end of the range is infinite,
    /// the range and the integrand are transformed first.
    fn integrate<A: Float, F: Integrand>(
        &mut self,
        fl: &A,
        f: &mut F,
        range: &Range,
        config: &IntegrationConfig,
    ) -> (res: IntegrationResult)
        ensures
            qag_front(
                fl,
                *old(f),
                old(self).finite.workspace,
                *range,
                *config,
                res,
                *final(f),
                final(self).finite.workspace,
            ),
    {
        let transform = !range.begin.is_finite() || !range.end.is_finite();
        let finite_range = if transform {
            transform_range(fl, range)
        } else {
            *range
        };
        proof {
            assert(is_mapped(fl, *range, finite_range));
        }
        if finite_range.begin.is_nan() || finite_range.end.is_nan() {
            // the arithmetic has failed on an end of the range
            return finish(
                Solution::default().estimate,
                Solution::default().delta,
                0,
                Some(RuntimeError::NanValueEncountered),
            );
        }
        self.finite.integrate_mapped(fl, f, &finite_range, config, transform)
    }
}

impl<A: Float, F: Integrand> Described<A, F> for QAG_FINITE {
    open spec fn runs(
        &self,
        fl: &A,
        before: F,
        range: Range,
        config: IntegrationConfig,
        res: IntegrationResult,
        after: &Self,
        integrand: F,
    ) -> bool {
        qag_run(fl, before, self.workspace, range, config, false, res, integrand, after.workspace)
    }

    fn integrate_described(
        &mut self,
        fl: &A,
        f: &mut F,
        range: &Range,
        config: &IntegrationConfig,
    ) -> (res: IntegrationResult) {
        self.integrate(fl, f, range, config)
    }
}

impl<A: Float, F: Integrand> Described<A, F> for QAG {
    open spec fn runs(
        &self,
        fl: &A,
        before: F,
        range: Range,
        config: IntegrationConfig,
        res: IntegrationResult,
        after: &Self,
        integrand: F,
    ) -> bool {
        qag_front(
            fl,
            before,
            self.finite.workspace,
            range,
            config,
            res,
            integrand,
            after.finite.workspace,
        )
    }

    fn integrate_described(
        &mut self,
        fl: &A,
        f: &mut F,
        range: &Range,
        config: &IntegrationConfig,
    ) -> (res: IntegrationResult) {
        self.integrate(fl, f, range, config)
    }
}

impl Default for QAG_FINITE {
    fn default() -> (r: Self)
        ensures
            r.workspace.wf(),
            r.workspace.subranges@.len() == 0,
    {
        Self::new()
    }
}

impl Default for QAG {
    fn default() -> (r: Self)
        ensures
            r.finite.workspace.wf(),
            r.finite.workspace.subranges@.len() == 0,
    {
        Self::new()
    }
}

} // verus!
