//! Adaptive bisection with extrapolation, started from the pieces into which
//! known singular points cut the range.
#![allow(non_camel_case_types)]

use vstd::prelude::*;
use crate::common::{IntegrationResult, Solution, ValueWithError};
use crate::error::RuntimeError;
use crate::float::{
    adds_up,
    is_total,
    Double,
    Float,
    HUNDRED_EPSILON_BITS,
    HUNDRED_MIN_POSITIVE_BITS,
    MAX_BITS,
};
use crate::single::algorithm::initial::InitialStep;
use crate::single::algorithm::reconcile::{finish, reconcile};
use crate::single::algorithm::search::{
    begin,
    begun,
    cursors,
    ends,
    explores,
    halve,
    lemma_linked,
    linked,
    moved,
    proceeds,
    searches,
    turn_p,
    turns,
    Course,
    Halved,
    Point,
    Step,
    Turn,
};
use crate::single::algorithm::qag::halves;
use crate::single::algorithm::qag::failed_transform;
use crate::single::algorithm::{Algorithm, Described};
use crate::single::common::{Integrand, IntegrationConfig, Range};
use crate::single::points::{
    cut,
    make_sorted_points,
    no_nan_from,
    ordered,
    spec_within,
    Points,
};
use crate::single::qk::{qk25_mapped, rule25, rule_gives, QKResult};
use crate::single::util::{
    bisect,
    is_image,
    transform_point,
    transform_range,
};
use crate::single::workspace::{no_nan_delta, SubRangeInfo, WorkSpace};

verus! {

/// What follows the sum `result` of the estimates over the pieces, given the
/// tolerance, the round-off floor and the evaluations that the budget still
/// allows. The tests are made in this order:
///
/// 1. an error estimate above the tolerance but at or below the round-off
///    floor cannot be improved;
/// 2. an error estimate within the tolerance that is not merely the
///    deviation from the mean, or one of zero, is accepted;
/// 3. a budget that allows no bisection ends the integration;
/// 4. otherwise the piece with the largest error estimate is bisected.
pub open spec fn spec_pieces_step(
    result: QKResult,
    tolerance: Double,
    round_off: Double,
    remaining: usize,
) -> InitialStep {
    if result.delta.le(round_off) && result.delta.gt(tolerance) {
        InitialStep::Fail(RuntimeError::RoundoffError)
    } else if (result.delta.le(tolerance) && result.delta.num_ne(result.asc))
        || result.delta.num_eq(Double::from_bits(0)) {
        InitialStep::Accept
    } else if remaining < 50 {
        InitialStep::Fail(RuntimeError::InsufficientIteration)
    } else {
        InitialStep::Refine
    }
}

/// What follows the sum of the estimates over the pieces: see
/// `spec_pieces_step`.
#[verifier::when_used_as_spec(spec_pieces_step)]
pub fn pieces_step(
    result: QKResult,
    tolerance: Double,
    round_off: Double,
    remaining: usize,
) -> (step: InitialStep)
    ensures
        step == spec_pieces_step(result, tolerance, round_off, remaining),
{
    if result.delta.le(round_off) && result.delta.gt(tolerance) {
        InitialStep::Fail(RuntimeError::RoundoffError)
    } else if (result.delta.le(tolerance) && result.delta.num_ne(result.asc))
        || result.delta.num_eq(Double::from_bits(0)) {
        InitialStep::Accept
    } else if remaining < 50 {
        InitialStep::Fail(RuntimeError::InsufficientIteration)
    } else {
        InitialStep::Refine
    }
}

/// The number of pieces into which the singular points of `config` cut
/// `range`: one more than the number of points within the range.
pub open spec fn pieces(range: Range, config: IntegrationConfig) -> nat {
    config.points@.filter(|x: Double| spec_within(x, range.lower(), range.upper())).len() + 1
}

/// What an integration over the pieces between singular points promises of
/// its result `res` and of the workspace that it leaves:
///
/// * with a budget that does not cover 25 evaluations for each piece,
///   nothing is evaluated, and the workspace stays as it was;
/// * the number of evaluations is a multiple of 25 within the budget;
/// * a result without an error has an error estimate that the tolerance
///   admits;
/// * `InsufficientIteration` is reported only where the budget does not
///   cover the pieces or does not allow another bisection;
/// * the workspace either stays as it was or holds, well-formed, the
///   records of this integration, each of which has cost 25 or 50
///   evaluations.
pub open spec fn pieces_outcome(
    before: WorkSpace,
    after: WorkSpace,
    range: Range,
    config: IntegrationConfig,
    res: IntegrationResult,
) -> bool {
    &&& config.max_evals < 25 * pieces(range, config) ==> res == (ValueWithError {
        value: Solution::initial(),
        error: Some(RuntimeError::InsufficientIteration),
    }) && after == before
    &&& res.error == Some(RuntimeError::InsufficientIteration) ==> config.max_evals
        < res.value.nevals + 50 || config.max_evals < 25 * pieces(range, config)
    &&& pieces_outcome_mapped(before, after, config, res)
}

/// What `pieces_outcome` promises whatever the number of pieces.
pub open spec fn pieces_outcome_mapped(
    before: WorkSpace,
    after: WorkSpace,
    config: IntegrationConfig,
    res: IntegrationResult,
) -> bool {
    &&& res.value.nevals <= config.max_evals
    &&& res.value.nevals % 25 == 0
    &&& res.error.is_none() ==> config.tolerance.admits(res.value.delta)
    &&& after == before || (after.wf() && 25 * after.subranges@.len() <= res.value.nevals <= 50
        * after.subranges@.len() + 50)
}

/// The piece between the points at `j` and at `j + 1`.
pub open spec fn piece(pts: Seq<Double>, j: int) -> Range {
    Range { begin: pts[j], end: pts[j + 1] }
}

/// Whether the arithmetic `fl` may find the piece at `j` narrower than a
/// hundred times the smallest normal double.
pub open spec fn is_narrow<A: Float>(fl: &A, pts: Seq<Double>, j: int) -> bool {
    exists|d: Double| #[trigger]
        fl.is_difference(pts[j + 1], pts[j], d) && d.abs().lt(
            Double::from_bits(HUNDRED_MIN_POSITIVE_BITS),
        )
}

/// Whether the arithmetic `fl` may find the piece at `j` no narrower than a
/// hundred times the smallest normal double.
pub open spec fn is_wide<A: Float>(fl: &A, pts: Seq<Double>, j: int) -> bool {
    exists|d: Double| #[trigger]
        fl.is_difference(pts[j + 1], pts[j], d) && !d.abs().lt(
            Double::from_bits(HUNDRED_MIN_POSITIVE_BITS),
        )
}

/// Whether `records` are those of the pieces before `upto` that are not
/// passed over, in the order of the pieces: the record at `k` is that of the
/// piece at `places[k]`, lies at level 0 and holds the estimate of
/// `kernel[k]`, which is no NaN. Every piece before `upto` without a record
/// is narrow.
#[verifier::opaque]
pub open spec fn laid_out<A: Float>(
    fl: &A,
    pts: Seq<Double>,
    upto: int,
    places: Seq<int>,
    kernel: Seq<QKResult>,
    records: Seq<SubRangeInfo>,
) -> bool {
    &&& places.len() == records.len()
    &&& kernel.len() == records.len()
    &&& forall|a: int, b: int|
        0 <= a < b < places.len() ==> #[trigger] places[a] < #[trigger] places[b]
    &&& forall|k: int|
        0 <= k < records.len() ==> {
            &&& 0 <= #[trigger] places[k] < upto
            &&& is_wide(fl, pts, places[k])
            &&& records[k].range == piece(pts, places[k])
            &&& records[k].level == 0
            &&& records[k].estimate == kernel[k].estimate
            &&& !kernel[k].estimate.is_nan()
        }
    &&& forall|j: int| 0 <= j < upto ==> #[trigger] is_narrow(fl, pts, j) || places.contains(j)
}

/// Whether the results `kernel` are those of the 25-point rule over the
/// ranges of `records`, one after the other, which takes the integrand
/// through `states`: one state before each evaluation and one after the
/// last.
#[verifier::opaque]
pub open spec fn ruled<A: Float, F: Integrand>(
    fl: &A,
    transform: bool,
    states: Seq<F>,
    kernel: Seq<QKResult>,
    records: Seq<SubRangeInfo>,
) -> bool {
    &&& states.len() == records.len() + 1
    &&& kernel.len() == records.len()
    &&& forall|k: int|
        0 <= k < records.len() ==> rule_gives(
            fl,
            states[k],
            (#[trigger] records[k]).range,
            rule25(),
            transform,
            kernel[k],
            states[k + 1],
        )
}

/// Whether the order of `ws` is what selection makes of the order in which
/// the records were entered: see `WorkSpace::selected`.
pub open spec fn sorted_from_entry(ws: WorkSpace) -> bool {
    exists|order: Seq<usize>| #[trigger]
        entered(order) && order.len() == ws.subranges@.len() && ws.order@ == WorkSpace::selected(
            ws.subranges@,
            order,
            0,
            order.len() as int,
        )
}

/// Whether `order` names the records in the order in which they were entered.
#[verifier::opaque]
pub open spec fn entered(order: Seq<usize>) -> bool {
    forall|k: int| 0 <= k < order.len() ==> #[trigger] order[k] == k
}

/// Whether each record holds the error estimate that the rule gave for its
/// piece.
#[verifier::opaque]
pub open spec fn plain_deltas(kernel: Seq<QKResult>, records: Seq<SubRangeInfo>) -> bool {
    forall|k: int| 0 <= k < records.len() ==> (#[trigger] records[k]).delta == kernel[k].delta
}

/// Whether each record holds the error estimate that the rule gave for its
/// piece or, where that is merely the deviation from the mean, `sum`.
#[verifier::opaque]
pub open spec fn mended_deltas(
    kernel: Seq<QKResult>,
    sum: Double,
    records: Seq<SubRangeInfo>,
) -> bool {
    forall|k: int|
        0 <= k < records.len() ==> (#[trigger] records[k]).delta == if kernel[k].rough() {
            sum
        } else {
            kernel[k].delta
        }
}

/// Whether `records` and `r` are what the evaluation of the pieces between
/// the points `pts` may leave, with the results `kernel` of the rule over
/// the pieces at `places`.
///
/// Without a NaN every piece is either narrow or has its record, `result0`
/// is the total of the results of the rule, and each record has its mended
/// error estimate. With a NaN this holds of the pieces before the one at
/// `upto`, whose estimate was the NaN, with the error estimates as the rule
/// gave them and a sum of zero.
pub open spec fn pieces_evaluated<A: Float, F: Integrand>(
    fl: &A,
    before: F,
    pts: Seq<Double>,
    transform: bool,
    upto: int,
    places: Seq<int>,
    kernel: Seq<QKResult>,
    states: Seq<F>,
    records: Seq<SubRangeInfo>,
    r: Pieces,
    after: F,
) -> bool {
    &&& laid_out(fl, pts, upto, places, kernel, records)
    &&& ruled(fl, transform, states, kernel, records)
    &&& states[0] == before
    &&& QKResult::totals(fl, kernel, r.result0)
    &&& if r.nan {
        &&& 0 <= upto < pts.len() - 1
        &&& is_wide(fl, pts, upto)
        &&& plain_deltas(kernel, records)
        &&& r.deltasum == Double::from_bits(0)
        &&& exists|q: QKResult| #[trigger]
            rule_gives(fl, states.last(), piece(pts, upto), rule25(), transform, q, after)
                && q.estimate.is_nan()
    } else {
        &&& upto == pts.len() - 1
        &&& mended_deltas(kernel, r.result0.delta, records)
        &&& states.last() == after
    }
}

/// Whether `pts` are the ends of the pieces into which `points` cut
/// `range`: see `cut`. They are the beginning of the range, the points
/// within the range, and its end; the points in the direction of the range
/// where none is a NaN.
pub open spec fn is_cut(range: Range, points: Seq<Double>, pts: Seq<Double>) -> bool {
    &&& pts == cut(range, points)
    &&& pts.len() == points.filter(|x: Double| spec_within(x, range.lower(), range.upper())).len()
        + 2
    &&& pts.first() == range.begin
    &&& pts.last() == range.end
    &&& pts.subrange(1, pts.len() - 1).to_multiset() == points.filter(
        |x: Double| spec_within(x, range.lower(), range.upper()),
    ).to_multiset()
    &&& no_nan_from(points, 0) ==> ordered(
        pts.subrange(1, pts.len() - 1),
        0,
        !range.begin.lt(range.end),
    )
}

/// Whether `records`, `first` and `after` are what the evaluation of the
/// pieces between the points `pts`, made of the integrand `before`, may
/// leave: see `pieces_evaluated`.
pub open spec fn pieces_made<A: Float, F: Integrand>(
    fl: &A,
    before: F,
    pts: Seq<Double>,
    transform: bool,
    records: Seq<SubRangeInfo>,
    first: Pieces,
    after: F,
) -> bool {
    exists|upto: int, places: Seq<int>, kernel: Seq<QKResult>, states: Seq<F>| #[trigger]
        pieces_evaluated(
            fl,
            before,
            pts,
            transform,
            upto,
            places,
            kernel,
            states,
            records,
            first,
            after,
        )
}

/// Whether `step` is what follows the sums `first` over the pieces, with
/// `tolerance` at the magnitude of their estimate and a round-off floor of a
/// hundred machine epsilons of their integral of the magnitude, each as the
/// arithmetic `fl` may give it.
pub open spec fn pieces_follow<A: Float>(
    fl: &A,
    config: IntegrationConfig,
    first: Pieces,
    tolerance: Double,
    step: InitialStep,
) -> bool {
    exists|round_off: Double|
        #![trigger spec_pieces_step(first.result0, tolerance, round_off, (config.max_evals - first.nevals) as usize)]
        {
            &&& config.tolerance.is_absolute(fl, first.result0.estimate.abs(), tolerance)
            &&& fl.is_product(
                Double::from_bits(HUNDRED_EPSILON_BITS),
                first.result0.absvalue,
                round_off,
            )
            &&& step == spec_pieces_step(
                first.result0,
                tolerance,
                round_off,
                (config.max_evals - first.nevals) as usize,
            )
        }
}

/// The result that ends an integration at the sums over its pieces.
pub open spec fn ended_at_pieces(first: Pieces, error: Option<RuntimeError>) -> IntegrationResult {
    ValueWithError {
        value: Solution {
            estimate: first.result0.estimate,
            delta: first.result0.delta,
            nevals: first.nevals,
        },
        error,
    }
}

/// Whether `start` is where the bisections begin after the sums `first` over
/// the pieces: the integrand as the pieces left it, their records sorted
/// in the workspace, with the cursor on the first of its order, and their
/// sums for the sums, for the error over the larger subranges and in the
/// table. That error is held to `tolerance`.
pub open spec fn starts_pieces<F>(
    start: Point<F>,
    mid: F,
    records: Seq<SubRangeInfo>,
    first: Pieces,
    tolerance: Double,
) -> bool {
    &&& start.f == mid
    &&& begun(
        start.st,
        first.result0.estimate,
        first.deltasum,
        first.deltasum,
        tolerance,
        first.nevals,
    )
    &&& start.ws.subranges@ == records
    &&& sorted_from_entry(start.ws)
    &&& start.ws.wf()
    &&& start.ws.aligned()
    &&& start.ws.nrmax == 0
    &&& start.ws.maximum_level == 0
    &&& no_nan_delta(records) ==> start.ws.sorted()
}

/// The course of an integration over the pieces between singular points
/// after the sums `first` over them.
pub open spec fn course_of_pieces(
    range: Range,
    config: IntegrationConfig,
    first: Pieces,
) -> Course {
    Course {
        pieces: true,
        nint: pieces(range, config) as usize,
        allowed: ((config.max_evals - first.nevals) / 50) as usize,
    }
}

/// Whether an integration over pieces begins as it must. With a budget that
/// does not cover the pieces the integrand is left as it was. Otherwise the
/// rule is evaluated over each piece that is not narrow. A NaN among the
/// estimates ends the integration with the sums so far. Where the sums are
/// accepted or fail, the result is theirs, and the workspace holds the
/// records of the pieces. Where they ask for bisection, the bisections
/// follow: see `explores`.
pub open spec fn opens<A: Float, F: Integrand>(
    fl: &A,
    before: F,
    range: Range,
    config: IntegrationConfig,
    transform: bool,
    res: IntegrationResult,
    after: F,
    ws1: WorkSpace,
) -> bool {
    if config.max_evals < 25 * pieces(range, config) {
        after == before
    } else {
        exists|pts: Seq<Double>, first: Pieces, mid: F, records: Seq<SubRangeInfo>|
            #![trigger is_cut(range, config.points@, pts), pieces_made(fl, before, pts, transform, records, first, mid)]
            {
                &&& is_cut(range, config.points@, pts)
                &&& pieces_made(fl, before, pts, transform, records, first, mid)
                &&& if first.nan {
                    &&& res == ended_at_pieces(first, Some(RuntimeError::NanValueEncountered))
                    &&& after == mid
                    &&& ws1.subranges@ == records
                } else {
                    exists|step: InitialStep, tolerance: Double| #[trigger]
                        pieces_follow(fl, config, first, tolerance, step) && match step {
                            InitialStep::Accept => res == ended_at_pieces(first, None) && after
                                == mid && ws1.subranges@ == records,
                            InitialStep::Fail(e) => res == ended_at_pieces(first, Some(e))
                                && after == mid && ws1.subranges@ == records,
                            _ => exists|start: Point<F>| #[trigger]
                                starts_pieces(start, mid, records, first, tolerance) && explores(
                                    fl,
                                    config,
                                    transform,
                                    course_of_pieces(range, config, first),
                                    start,
                                    first.result0.estimate,
                                    first.result0.absvalue,
                                    res,
                                    after,
                                    ws1,
                                ),
                        }
                }
            }
    }
}

/// An integration over pieces that has evaluated them and ends as the sums
/// over the pieces ask, or with the result of the bisections that follow,
/// begins as it must.
pub proof fn lemma_opens<A: Float, F: Integrand>(
    fl: &A,
    before: F,
    range: Range,
    config: IntegrationConfig,
    transform: bool,
    res: IntegrationResult,
    after: F,
    ws1: WorkSpace,
    pts: Seq<Double>,
    first: Pieces,
    mid: F,
    records: Seq<SubRangeInfo>,
    tolerance: Double,
    step: InitialStep,
    start: Point<F>,
)
    requires
        config.max_evals >= 25 * pieces(range, config),
        is_cut(range, config.points@, pts),
        pieces_made(fl, before, pts, transform, records, first, mid),
        if first.nan {
            &&& res == ended_at_pieces(first, Some(RuntimeError::NanValueEncountered))
            &&& after == mid
            &&& ws1.subranges@ == records
        } else {
            &&& pieces_follow(fl, config, first, tolerance, step)
            &&& match step {
                InitialStep::Accept => res == ended_at_pieces(first, None) && after == mid
                    && ws1.subranges@ == records,
                InitialStep::Fail(e) => res == ended_at_pieces(first, Some(e)) && after == mid
                    && ws1.subranges@ == records,
                _ => starts_pieces(start, mid, records, first, tolerance) && explores(
                    fl,
                    config,
                    transform,
                    course_of_pieces(range, config, first),
                    start,
                    first.result0.estimate,
                    first.result0.absvalue,
                    res,
                    after,
                    ws1,
                ),
            }
        },
    ensures
        opens(fl, before, range, config, transform, res, after, ws1),
{
}

/// A chain of bisections with the result that ends it is what the
/// bisections from its first point on may give.
pub proof fn lemma_explores<A: Float, F: Integrand>(
    fl: &A,
    config: IntegrationConfig,
    transform: bool,
    course: Course,
    estimate0: Double,
    absvalue: Double,
    points: Seq<Point<F>>,
    outs: Seq<Step>,
    res: IntegrationResult,
)
    requires
        linked(fl, config, transform, course, points, outs),
        points.len() == outs.len() + 1,
        outs.len() <= course.allowed,
        ends(fl, course, estimate0, absvalue, points.last(), outs, res),
    ensures
        explores(
            fl,
            config,
            transform,
            course,
            points[0],
            estimate0,
            absvalue,
            res,
            points.last().f,
            points.last().ws,
        ),
{
}

/// Whether an integration by `QAGP_FINITE` over `range`, made of the
/// integrand `before` with the workspace `ws0`, may return `res` and leave
/// the integrand as `after` and the workspace as `ws1`. A result without an
/// error has an error estimate that the tolerance accepts.
pub open spec fn qagp_run<A: Float, F: Integrand>(
    fl: &A,
    before: F,
    ws0: WorkSpace,
    range: Range,
    config: IntegrationConfig,
    transform: bool,
    res: IntegrationResult,
    after: F,
    ws1: WorkSpace,
) -> bool {
    &&& pieces_outcome(ws0, ws1, range, config, res)
    &&& res.error.is_none() ==> config.tolerance.accepts(fl, res.value.delta)
    &&& opens(fl, before, range, config, transform, res, after, ws1)
}

/// The estimates over the pieces between singular points.
#[derive(Clone, Copy, Debug)]
pub struct Pieces {
    /// the sums of the results over the pieces
    pub result0: QKResult,
    /// the sum of the error estimates of the records
    pub deltasum: Double,
    /// the number of evaluations
    pub nevals: usize,
    /// whether the estimate over a piece was a NaN, which ended the
    /// evaluation
    pub nan: bool,
}

/// QAGP algorithm over finite range: `QAGS_FINITE`, started from one
/// subrange for each piece between singular points.
#[derive(Clone, Debug)]
pub struct QAGP_FINITE {
    pub workspace: WorkSpace,
}

impl QAGP_FINITE {
    pub fn new() -> (r: Self)
        ensures
            r.workspace.wf(),
            r.workspace.subranges@.len() == 0,
    {
        Self { workspace: WorkSpace::new() }
    }

    /// An algorithm that works in the given workspace, whatever it holds.
    pub fn with_workspace(workspace: WorkSpace) -> (r: Self)
        ensures
            r.workspace == workspace,
    {
        Self { workspace }
    }

    /// Evaluates the 25-point rule over each piece between two successive
    /// points of `pts` and fills the workspace, which must be empty, with one
    /// record for each. A piece narrower than a hundred times the smallest
    /// normal double is passed over. Where the error estimate of a piece is
    /// merely its deviation from the mean, its record gets the sum of the
    /// error estimates of all pieces instead. The records are then sorted.
    ///
    /// A NaN estimate ends the evaluation at once: the sums are then those
    /// of the pieces before it, and the records are left unsorted.
    pub fn evaluate_pieces<A: Float, F: Integrand>(
        &mut self,
        fl: &A,
        f: &mut F,
        pts: &Points,
        transform: bool,
    ) -> (r: Pieces)
        requires
            old(f).inv(),
            pts@.len() >= 1,
            pts@.len() <= usize::MAX / 32,
            old(self).workspace.wf(),
            old(self).workspace.levels_bounded(),
            old(self).workspace.subranges@.len() == 0,
            old(self).workspace.nrmax == 0,
            old(self).workspace.maximum_level == 0,
        ensures
            final(f).inv(),
            final(self).workspace.wf(),
            final(self).workspace.levels_bounded(),
            final(self).workspace.nrmax == 0,
            final(self).workspace.maximum_level == 0,
            final(self).workspace.subranges@.len() <= pts@.len() - 1,
            r.nevals <= 25 * (pts@.len() - 1),
            r.nevals == 25 * final(self).workspace.subranges@.len() + if r.nan {
                25int
            } else {
                0int
            },
            !r.nan && final(self).workspace.subranges@.len() == 0 ==> r.result0
                == QKResult::zero(),
            !r.nan && final(self).workspace.subranges@.len() > 0
                ==> final(self).workspace.aligned(),
            exists|upto: int, places: Seq<int>, kernel: Seq<QKResult>, states: Seq<F>| #[trigger]
                pieces_evaluated(
                    fl,
                    *old(f),
                    pts@,
                    transform,
                    upto,
                    places,
                    kernel,
                    states,
                    final(self).workspace.subranges@,
                    r,
                    *final(f),
                ),
            !r.nan ==> is_total(fl, final(self).workspace.deltas(), r.deltasum),
            !r.nan && no_nan_delta(final(self).workspace.subranges@)
                ==> final(self).workspace.sorted(),
            !r.nan ==> sorted_from_entry(final(self).workspace),
            r.nan ==> final(self).workspace.i == old(self).workspace.i && entered(
                final(self).workspace.order@,
            ),
    {
        proof {
            reveal(entered);
            reveal(laid_out);
            reveal(plain_deltas);
            reveal(mended_deltas);
        }
        let nint = pts.len() - 1;
        let mut nevals: usize = 0;
        let mut result0 = QKResult::zero();
        let ghost mut places: Seq<int> = Seq::empty();
        let ghost mut kernel: Seq<QKResult> = Seq::empty();
        let ghost mut partial: Seq<QKResult> = seq![result0];
        let ghost mut states: Seq<F> = seq![*f];
        proof {
            reveal(ruled);
        }

        // Whether the error estimate of a piece is merely its deviation from
        // the mean.
        let mut rough: Vec<bool> = Vec::new();
        let mut k: usize = 0;
        while k < nint
            invariant
                f.inv(),
                k <= nint,
                nint + 1 == pts@.len(),
                nint < usize::MAX / 32,
                nevals == 25 * self.workspace.subranges@.len(),
                self.workspace.wf(),
                self.workspace.levels_bounded(),
                self.workspace.nrmax == 0,
                self.workspace.maximum_level == 0,
                self.workspace.subranges@.len() == rough@.len(),
                self.workspace.subranges@.len() <= k,
                self.workspace.subranges@.len() == 0 ==> result0 == QKResult::zero(),
                laid_out(fl, pts@, k as int, places, kernel, self.workspace.subranges@),
                ruled(fl, transform, states, kernel, self.workspace.subranges@),
                states[0] == *old(f),
                states.last() == *f,
                plain_deltas(kernel, self.workspace.subranges@),
                forall|j: int| 0 <= j < rough@.len() ==> #[trigger] rough@[j] == kernel[j].rough(),
                QKResult::running(fl, kernel, partial),
                partial.last() == result0,
                self.workspace.i == old(self).workspace.i,
                entered(self.workspace.order@),
            decreases nint - k,
        {
            proof {
                reveal(entered);
                reveal(laid_out);
                reveal(ruled);
                reveal(plain_deltas);
                reveal(mended_deltas);
            }
            let ghost at = k as int;
            let ghost before = self.workspace.subranges@;
            let begin = pts.get(k);
            let end = pts.get(k + 1);
            k += 1;

            // ignore small range
            let width = fl.sub(end, begin);
            if width.abs().lt(Double::from_bits(HUNDRED_MIN_POSITIVE_BITS)) {
                proof {
                    assert(fl.is_difference(pts@[at + 1], pts@[at], width));
                    assert(is_narrow(fl, pts@, at));
                }
                continue ;
            }
            proof {
                assert(fl.is_difference(pts@[at + 1], pts@[at], width));
                assert(is_wide(fl, pts@, at));
            }
            let piece = Range { begin, end };
            let result1 = qk25_mapped(fl, f, &piece, transform);
            nevals += 25;

            if result1.estimate.is_nan() {
                let r = Pieces { result0, deltasum: Double::from_bits(0), nevals, nan: true };
                proof {
                    assert(laid_out(fl, pts@, at, places, kernel, self.workspace.subranges@));
                    assert(rule_gives(
                        fl,
                        states.last(),
                        self::piece(pts@, at),
                        rule25(),
                        transform,
                        result1,
                        *f,
                    ) && result1.estimate.is_nan());
                    assert(pieces_evaluated(
                        fl,
                        *old(f),
                        pts@,
                        transform,
                        at,
                        places,
                        kernel,
                        states,
                        self.workspace.subranges@,
                        r,
                        *f,
                    ));
                }
                return r;
            }
            rough.push(
                result1.delta.num_eq(result1.asc) && result1.delta.num_ne(Double::from_bits(0)),
            );
            result0.add_assign(fl, &result1);
            self.workspace.push(SubRangeInfo::new(piece, result1.estimate, result1.delta, 0));
            proof {
                let earlier = places;
                let passed = states;
                places = places.push(at);
                kernel = kernel.push(result1);
                partial = partial.push(result0);
                states = states.push(*f);
                let records = self.workspace.subranges@;
                assert forall|j: int| 0 <= j < records.len() implies rule_gives(
                    fl,
                    states[j],
                    (#[trigger] records[j]).range,
                    rule25(),
                    transform,
                    kernel[j],
                    states[j + 1],
                ) by {
                    if j < before.len() {
                        assert(records[j] == before[j]);
                        assert(states[j] == passed[j] && states[j + 1] == passed[j + 1]);
                    }
                }
                assert forall|j: int| 0 <= j < k implies #[trigger] is_narrow(fl, pts@, j)
                    || places.contains(j) by {
                    if j == at {
                        assert(places[earlier.len() as int] == j);
                    } else if !is_narrow(fl, pts@, j) {
                        let w = choose|w: int| 0 <= w < earlier.len() && earlier[w] == j;
                        assert(places[w] == j);
                    }
                }
                assert forall|j: int| 0 <= j < records.len() implies {
                    &&& 0 <= #[trigger] places[j] < k
                    &&& is_wide(fl, pts@, places[j])
                    &&& records[j].range == self::piece(pts@, places[j])
                    &&& records[j].level == 0
                    &&& records[j].estimate == kernel[j].estimate
                    &&& !kernel[j].estimate.is_nan()
                } by {
                    if j < before.len() {
                        assert(earlier[j] == places[j]);
                        assert(records[j] == before[j]);
                    }
                }
                assert forall|j: int| 0 <= j < records.len() implies (#[trigger] records[j]).delta
                    == kernel[j].delta by {
                    if j < before.len() {
                        assert(records[j] == before[j]);
                    }
                }
                assert forall|a: int, b: int| 0 <= a < b < places.len() implies #[trigger] places[a]
                    < #[trigger] places[b] by {
                    assert(places[a] == earlier[a]);
                    if b < earlier.len() {
                        assert(places[b] == earlier[b]);
                    }
                }
            }
        }

        // Compute the initial error estimate
        let mut deltasum = Double::from_bits(0);
        let ghost mut sums: Seq<Double> = seq![deltasum];
        let ghost first = self.workspace.subranges@;
        let npieces = self.workspace.size();
        k = 0;
        while k < npieces
            invariant
                k <= npieces,
                npieces == rough@.len(),
                npieces == self.workspace.subranges@.len(),
                self.workspace.wf(),
                self.workspace.levels_bounded(),
                self.workspace.nrmax == 0,
                self.workspace.maximum_level == 0,
                first.len() == npieces,
                kernel.len() == npieces,
                entered(self.workspace.order@),
                forall|j: int| 0 <= j < npieces ==> #[trigger] rough@[j] == kernel[j].rough(),
                forall|j: int|
                    0 <= j < npieces ==> {
                        &&& (#[trigger] self.workspace.subranges@[j]).range == first[j].range
                        &&& self.workspace.subranges@[j].level == first[j].level
                        &&& self.workspace.subranges@[j].estimate == first[j].estimate
                        &&& self.workspace.subranges@[j].delta == if j < k && kernel[j].rough() {
                            result0.delta
                        } else {
                            kernel[j].delta
                        }
                    },
                adds_up(fl, self.workspace.deltas().take(k as int), sums),
                sums.last() == deltasum,
            decreases npieces - k,
        {
            proof {
                reveal(entered);
                reveal(laid_out);
                reveal(ruled);
                reveal(plain_deltas);
                reveal(mended_deltas);
            }
            let ghost before = self.workspace;
            let ghost terms = self.workspace.deltas().take(k as int);
            let mut record = self.workspace.subranges[k];
            if rough[k] {
                record.delta = result0.delta;
                self.workspace.subranges[k] = record;
            }
            deltasum = fl.add(deltasum, record.delta);
            proof {
                assert forall|j: int| 0 <= j < self.workspace.subranges@.len() implies (
                #[trigger] self.workspace.subranges@[j]).level
                    <= self.workspace.maximum_level by {
                    if j != k {
                        assert(self.workspace.subranges@[j] == before.subranges@[j]);
                    } else {
                        assert(before.subranges@[j].level <= before.maximum_level);
                    }
                }
                let earlier = sums;
                sums = sums.push(deltasum);
                let longer = self.workspace.deltas().take(k + 1);
                assert forall|j: int| 0 <= j < longer.len() implies fl.is_sum(
                    sums[j],
                    #[trigger] longer[j],
                    sums[j + 1],
                ) by {
                    if j < k {
                        assert(self.workspace.subranges@[j] == before.subranges@[j]);
                        assert(terms[j] == longer[j]);
                        assert(sums[j] == earlier[j]);
                        assert(sums[j + 1] == earlier[j + 1]);
                    }
                }
            }
            k += 1;
        }

        // Sort results into order of decreasing error via the indirection
        // array order[]

        let ghost unsorted = self.workspace.order@;
        self.workspace.sort_results();
        let r = Pieces { result0, deltasum, nevals, nan: false };
        proof {
            assert(entered(unsorted) && unsorted.len() == self.workspace.subranges@.len());
            assert(sorted_from_entry(self.workspace));
            reveal(laid_out);
            reveal(ruled);
            reveal(mended_deltas);
            let records = self.workspace.subranges@;
            assert forall|j: int| 0 <= j < records.len() implies rule_gives(
                fl,
                states[j],
                (#[trigger] records[j]).range,
                rule25(),
                transform,
                kernel[j],
                states[j + 1],
            ) by {
                assert(records[j].range == first[j].range);
            }
            assert(self.workspace.deltas().take(k as int) =~= self.workspace.deltas());
            assert forall|j: int| 0 <= j < records.len() implies {
                &&& 0 <= #[trigger] places[j] < nint
                &&& is_wide(fl, pts@, places[j])
                &&& records[j].range == self::piece(pts@, places[j])
                &&& records[j].level == 0
                &&& records[j].estimate == kernel[j].estimate
                &&& !kernel[j].estimate.is_nan()
            } by {
                assert(records[j].range == first[j].range);
            }
            assert(laid_out(fl, pts@, nint as int, places, kernel, records));
            assert(mended_deltas(kernel, result0.delta, records));
            assert(pieces_evaluated(
                fl,
                *old(f),
                pts@,
                transform,
                nint as int,
                places,
                kernel,
                states,
                records,
                r,
                *f,
            ));
        }
        r
    }

    /// Integrates `f` over `range`, which is taken to be finite, cut at the
    /// singular points of `config` that lie within it.
    ///
    /// Each piece costs 25 evaluations and each bisection 50. With a budget
    /// that does not cover the pieces nothing is evaluated. The number of
    /// evaluations stays within the budget.
    ///
    /// With `transform` set the integrand is taken through the substitution
    /// that maps the range from -1 to 1 onto the whole line.
    #[verifier::rlimit(40)]
    pub fn integrate_mapped<A: Float, F: Integrand>(
        &mut self,
        fl: &A,
        f: &mut F,
        range: &Range,
        config: &IntegrationConfig,
        transform: bool,
    ) -> (res: IntegrationResult)
        requires
            old(f).inv(),
            range.wf(),
            config.wf(),
        ensures
            qagp_run(
                fl,
                *old(f),
                old(self).workspace,
                *range,
                *config,
                transform,
                res,
                *final(f),
                final(self).workspace,
            ),
            final(f).inv(),
    {
        let pts = make_sorted_points(range, &config.points);
        proof {
            assert(is_cut(*range, config.points@, pts@));
        }
        let nint = pts.len() - 1;  // number of pieces
        let mut nevals: usize = 0;

        if config.max_evals < nint * 25 {
            return finish(
                Solution::default().estimate,
                Solution::default().delta,
                0,
                Some(RuntimeError::InsufficientIteration),
            );
        }
        self.workspace.clear();
        self.workspace.reserve(nint + (config.max_evals - nint * 25) / 50);

        let first = self.evaluate_pieces(fl, f, &pts, transform);
        let ghost mid = *f;
        let ghost records = self.workspace.subranges@;
        let result0 = first.result0;
        nevals = first.nevals;
        proof {
            assert(pieces_made(fl, *old(f), pts@, transform, records, first, mid));
        }
        let zero = Double::from_bits(0);
        if first.nan {
            let res = finish(
                result0.estimate,
                result0.delta,
                nevals,
                Some(RuntimeError::NanValueEncountered),
            );
            let ghost start = Point { f: *f, ws: self.workspace, st: arbitrary() };
            proof {
                lemma_opens(
                    fl,
                    *old(f),
                    *range,
                    *config,
                    transform,
                    res,
                    *f,
                    self.workspace,
                    pts@,
                    first,
                    mid,
                    records,
                    zero,
                    InitialStep::Accept,
                    start,
                );
            }
            return res;
        }
        let npieces = self.workspace.size();

        // Test on accuracy

        let tolerance = config.tolerance.to_abs(fl, result0.estimate.abs());
        let round_off = fl.mul(Double::from_bits(HUNDRED_EPSILON_BITS), result0.absvalue);
        let step = pieces_step(result0, tolerance, round_off, config.max_evals - nevals);
        proof {
            assert(pieces_follow(fl, *config, first, tolerance, step));
        }
        match step {
            InitialStep::Accept => {
                let res = finish(result0.estimate, result0.delta, nevals, None);
                proof {
                    if !result0.delta.num_eq(Double::from_bits(0)) {
                        assert(config.tolerance.meets(
                            fl,
                            result0.estimate.abs(),
                            result0.delta,
                        ));
                    }
                }
                let ghost start = Point { f: *f, ws: self.workspace, st: arbitrary() };
                proof {
                    lemma_opens(
                        fl,
                        *old(f),
                        *range,
                        *config,
                        transform,
                        res,
                        *f,
                        self.workspace,
                        pts@,
                        first,
                        mid,
                        records,
                        tolerance,
                        step,
                        start,
                    );
                }
                return res;
            },
            InitialStep::Fail(e) => {
                let res = finish(result0.estimate, result0.delta, nevals, Some(e));
                let ghost start = Point { f: *f, ws: self.workspace, st: arbitrary() };
                proof {
                    lemma_opens(
                        fl,
                        *old(f),
                        *range,
                        *config,
                        transform,
                        res,
                        *f,
                        self.workspace,
                        pts@,
                        first,
                        mid,
                        records,
                        tolerance,
                        step,
                        start,
                    );
                }
                return res;
            },
            _ => {},
        }

        // Initialization

        let mut st = begin(result0.estimate, first.deltasum, first.deltasum, tolerance, nevals);
        let nevals0 = nevals;
        let allowed = (config.max_evals - nevals) / 50;
        let mut stopped = false;
        let mut nan = false;
        let ghost course = course_of_pieces(*range, *config, first);
        let ghost start = Point { f: *f, ws: self.workspace, st };
        let ghost mut points: Seq<Point<F>> = seq![start];
        let ghost mut outs: Seq<Step> = Seq::empty();
        proof {
            reveal(linked);
            assert(linked(fl, *config, transform, course, points, outs));
        }

        while st.bisections < allowed
            invariant_except_break
                !stopped,
                !nan,
                st.error.is_none(),
                st.bisections < allowed,
                outs.len() == st.bisections,
                outs.len() > 0 ==> proceeds(outs.last()),
                self.workspace.aligned(),
                self.workspace.levels_bounded(),
            invariant
                f.inv(),
                is_cut(*range, config.points@, pts@),
                pieces_made(fl, *old(f), pts@, transform, records, first, mid),
                pieces_follow(fl, *config, first, tolerance, step),
                starts_pieces(start, mid, records, first, tolerance),
                !first.nan,
                step != InitialStep::Accept,
                !(step is Fail),
                records.len() == npieces,
                first.nevals == nevals0,
                first.result0 == result0,
                course == course_of_pieces(*range, *config, first),
                course.allowed == allowed,
                course.nint == nint,
                1 <= npieces <= nint,
                nint == pieces(*range, *config),
                nint * 25 <= config.max_evals,
                nint < usize::MAX / 32,
                allowed == (config.max_evals - nevals0) / 50,
                nevals0 <= config.max_evals,
                nevals0 == 25 * npieces,
                st.inv(),
                st.bisections <= allowed,
                self.workspace.subranges@.len() == npieces + st.bisections,
                st.nevals == nevals0 + 50 * st.bisections,
                self.workspace.wf(),
                linked(fl, *config, transform, course, points, outs),
                points.len() == outs.len() + 1,
                points[0] == start,
                points.last() == (Point { f: *f, ws: self.workspace, st }),
                outs.len() <= allowed,
                st.error != Some(RuntimeError::NanValueEncountered),
                st.error == Some(RuntimeError::InsufficientIteration) ==> st.bisections
                    == allowed,
            ensures
                !(nan && stopped),
                nan ==> outs.len() > 0 && outs.last() is Nan && st.bisections < allowed
                    && st.error.is_none(),
                stopped ==> outs.len() > 0 && outs.last() == Step::Turned(Turn::Stop) && (
                st.error.is_none() ==> config.tolerance.admits(st.err_ext)
                    && config.tolerance.accepts(fl, st.err_ext) && !st.err_ext.num_eq(
                    Double::from_bits(MAX_BITS),
                )),
                nan || stopped,
            decreases allowed - st.bisections,
        {
            let info = *self.workspace.get();
            let ghost a = Point { f: *f, ws: self.workspace, st };
            let (r1, r2) = bisect(fl, &info.range);

            let result1 = qk25_mapped(fl, f, &r1, transform);
            let ghost between = *f;
            let result2 = qk25_mapped(fl, f, &r2, transform);

            let count = nint + st.bisections;
            let (out, h) = halve(
                fl,
                &mut self.workspace,
                &mut st,
                r1,
                r2,
                result1,
                result2,
                config,
                count,
            );
            let ghost kept = self.workspace;
            let ghost carried_on = st;
            match out {
                Halved::Nan => {
                    proof {
                        let b = Point { f: *f, ws: self.workspace, st };
                        assert(searches(fl, *config, transform, course, a, Step::Nan, b)) by {
                            reveal(searches);
                            assert(halves(fl, info.range, r1, r2));
                            assert(rule_gives(fl, a.f, r1, rule25(), transform, result1, between)
                                && rule_gives(fl, between, r2, rule25(), transform, result2, b.f));
                        }
                        lemma_linked(fl, *config, transform, course, points, outs, Step::Nan, b);
                        assert(points.push(b)[0] == points[0]);
                        points = points.push(b);
                        outs = outs.push(Step::Nan);
                    }
                    nan = true;
                    break ;
                },
                Halved::Done(res) => {
                    proof {
                        let b = Point { f: *f, ws: self.workspace, st };
                        assert(searches(fl, *config, transform, course, a, Step::Done(res), b))
                            by {
                            reveal(searches);
                            assert(halves(fl, info.range, r1, r2));
                            assert(rule_gives(fl, a.f, r1, rule25(), transform, result1, between)
                                && rule_gives(fl, between, r2, rule25(), transform, result2, b.f));
                        }
                        lemma_linked(
                            fl,
                            *config,
                            transform,
                            course,
                            points,
                            outs,
                            Step::Done(res),
                            b,
                        );
                        assert(points.push(b)[0] == points[0]);
                        points = points.push(b);
                        outs = outs.push(Step::Done(res));
                        lemma_explores(
                            fl,
                            *config,
                            transform,
                            course,
                            result0.estimate,
                            result0.absvalue,
                            points,
                            outs,
                            res,
                        );
                    }
                    proof {
                        lemma_opens(
                            fl,
                            *old(f),
                            *range,
                            *config,
                            transform,
                            res,
                            *f,
                            self.workspace,
                            pts@,
                            first,
                            mid,
                            records,
                            tolerance,
                            step,
                            start,
                        );
                    }
                    return res;
                },
                Halved::Kept => {},
            }
            let last_chance = st.bisections >= allowed;
            let (turn, t) = turn_p(
                fl,
                &mut self.workspace,
                &mut st,
                &h,
                info.delta,
                info.level + 1,
                last_chance,
                config,
            );
            proof {
                let b = Point { f: *f, ws: self.workspace, st };
                assert(searches(fl, *config, transform, course, a, Step::Turned(turn), b)) by {
                    reveal(searches);
                    assert(halves(fl, info.range, r1, r2));
                    assert(turns(
                        fl,
                        *config,
                        course,
                        carried_on,
                        kept,
                        h,
                        info.delta,
                        (info.level + 1) as usize,
                        t,
                        b.st,
                        turn,
                        cursors(b.ws),
                    ));
                    assert(moved(kept, cursors(b.ws), b.ws));
                    assert(rule_gives(fl, a.f, r1, rule25(), transform, result1, between)
                        && rule_gives(fl, between, r2, rule25(), transform, result2, b.f));
                }
                lemma_linked(fl, *config, transform, course, points, outs, Step::Turned(turn), b);
                assert(points.push(b)[0] == points[0]);
                points = points.push(b);
                outs = outs.push(Step::Turned(turn));
            }
            match turn {
                Turn::Stop => {
                    stopped = true;
                    break ;
                },
                Turn::GoOn => {},
            }
        }

        let mut error = st.error;
        nevals = st.nevals;
        if nan {
            nevals += 50;
            error = Some(RuntimeError::NanValueEncountered);
        }
        let res = reconcile(
            fl,
            &self.workspace,
            st.res_ext,
            st.err_ext,
            st.correc,
            st.area,
            st.errsum,
            result0.estimate,
            result0.absvalue,
            nevals,
            error,
            st.error2,
        );
        proof {
            lemma_explores(
                fl,
                *config,
                transform,
                course,
                result0.estimate,
                result0.absvalue,
                points,
                outs,
                res,
            );
        }
        proof {
            lemma_opens(
                fl,
                *old(f),
                *range,
                *config,
                transform,
                res,
                *f,
                self.workspace,
                pts@,
                first,
                mid,
                records,
                tolerance,
                step,
                start,
            );
        }
        res
    }
}

impl Algorithm for QAGP_FINITE {
    /// What the integration promises whatever the integrand returns.
    open spec fn gives(
        &self,
        range: Range,
        config: IntegrationConfig,
        res: IntegrationResult,
        after: &Self,
    ) -> bool {
        pieces_outcome(self.workspace, after.workspace, range, config, res)
    }

    /// Integrates `f` over `range`, which is taken to be finite, cut at the
    /// singular points of `config` that lie within it.
    ///
    /// Each piece costs 25 evaluations and each bisection 50. With a budget
    /// that does not cover the pieces nothing is evaluated. The number of
    /// evaluations stays within the budget.
    fn integrate<A: Float, F: Integrand>(
        &mut self,
        fl: &A,
        f: &mut F,
        range: &Range,
        config: &IntegrationConfig,
    ) -> (res: IntegrationResult)
        ensures
            qagp_run(
                fl,
                *old(f),
                old(self).workspace,
                *range,
                *config,
                false,
                res,
                *final(f),
                final(self).workspace,
            ),
    {
        self.integrate_mapped(fl, f, range, config, false)
    }
}

/// Whether `mapped` holds the images of the singular points `points` in the
/// range from -1 to 1, in the same order.
pub open spec fn are_images<A: Float>(fl: &A, points: Seq<Double>, mapped: Seq<Double>) -> bool {
    &&& mapped.len() == points.len()
    &&& forall|k: int| 0 <= k < points.len() ==> is_image(fl, #[trigger] points[k], mapped[k])
}

/// Whether an integration by `QAGP` over `range`, made of the integrand
/// `before` with the workspace `ws0`, may return `res` and leave the
/// integrand as `after` and the workspace as `ws1`. Over a finite range see
/// `qagp_run`. Where an end is infinite the range and the singular points
/// are mapped. Where the arithmetic gives a NaN for an end of the mapped
/// range, the integration fails at once and leaves the workspace and the
/// integrand as they were. Otherwise see `qagp_run`, over the mapped range
/// with the mapped points.
pub open spec fn qagp_front<A: Float, F: Integrand>(
    fl: &A,
    before: F,
    ws0: WorkSpace,
    range: Range,
    config: IntegrationConfig,
    res: IntegrationResult,
    after: F,
    ws1: WorkSpace,
) -> bool {
    if range.finite() {
        qagp_run(fl, before, ws0, range, config, false, res, after, ws1)
    } else {
        exists|mapped: Range|
            #![trigger is_image(fl, range.begin, mapped.begin)]
            {
                &&& is_image(fl, range.begin, mapped.begin)
                &&& is_image(fl, range.end, mapped.end)
                &&& if mapped.wf() {
                    exists|finite_config: IntegrationConfig|
                        #![trigger are_images(fl, config.points@, finite_config.points@)]
                        {
                            &&& are_images(fl, config.points@, finite_config.points@)
                            &&& finite_config.tolerance == config.tolerance
                            &&& finite_config.max_evals == config.max_evals
                            &&& qagp_run(
                                fl,
                                before,
                                ws0,
                                mapped,
                                finite_config,
                                true,
                                res,
                                after,
                                ws1,
                            )
                        }
                } else {
                    failed_transform(res) && after == before && ws1 == ws0
                }
            }
    }
}

/// QAGP algorithm: `QAGP_FINITE` behind the substitution that maps an
/// infinite range to a finite one.
#[derive(Clone, Debug)]
pub struct QAGP {
    pub finite: QAGP_FINITE,
}

impl QAGP {
    pub fn new() -> (r: Self)
        ensures
            r.finite.workspace.wf(),
            r.finite.workspace.subranges@.len() == 0,
    {
        Self { finite: QAGP_FINITE::new() }
    }

    /// An algorithm that works in the given workspace, whatever it holds.
    pub fn with_workspace(workspace: WorkSpace) -> (r: Self)
        ensures
            r.finite.workspace == workspace,
    {
        Self { finite: QAGP_FINITE::with_workspace(workspace) }
    }

    /// The workspace, with the subranges of the last integration.
    pub fn workspace(&self) -> (ws: &WorkSpace)
        ensures
            *ws == self.finite.workspace,
    {
        &self.finite.workspace
    }
}

impl Algorithm for QAGP {
    /// What the integration promises whatever the integrand returns.
    open spec fn gives(
        &self,
        range: Range,
        config: IntegrationConfig,
        res: IntegrationResult,
        after: &Self,
    ) -> bool {
        &&& range.finite() ==> pieces_outcome(
            self.finite.workspace,
            after.finite.workspace,
            range,
            config,
            res,
        )
        &&& pieces_outcome_mapped(self.finite.workspace, after.finite.workspace, config, res)
    }

    /// Integrates `f` over `range`, cut at the singular points of `config`.
    /// Where an end of the range is infinite, the range, the singular points
    /// and the integrand are transformed first.
    fn integrate<A: Float, F: Integrand>(
        &mut self,
        fl: &A,
        f: &mut F,
        range: &Range,
        config: &IntegrationConfig,
    ) -> (res: IntegrationResult)
        ensures
            qagp_front(
                fl,
                *old(f),
                old(self).finite.workspace,
                *range,
                *config,
                res,
                *final(f),
                final(self).finite.workspace,
            ),
    {
        let transform = !range.begin.is_finite() || !range.end.is_finite();
        if !transform {
            return self.finite.integrate_mapped(fl, f, range, config, false);
        }
        let finite_range = transform_range(fl, range);
        if finite_range.begin.is_nan() || finite_range.end.is_nan() {
            // the arithmetic has failed on an end of the range
            let res = finish(
                Solution::default().estimate,
                Solution::default().delta,
                0,
                Some(RuntimeError::NanValueEncountered),
            );
            proof {
                assert(is_image(fl, range.begin, finite_range.begin));
            }
            return res;
        }
        let n = config.points.len();
        let mut points = Points::with_capacity(n);
        let mut k: usize = 0;
        while k < n
            invariant
                k <= n,
                n == config.points@.len(),
                config.wf(),
                points@.len() == k,
                forall|j: int|
                    0 <= j < k ==> is_image(fl, #[trigger] config.points@[j], points@[j]),
            decreases n - k,
        {
            let image = transform_point(fl, config.points.get(k));
            let ghost earlier = points@;
            points.push(image);
            proof {
                assert forall|j: int| 0 <= j < k + 1 implies is_image(
                    fl,
                    #[trigger] config.points@[j],
                    points@[j],
                ) by {
                    if j < k {
                        assert(points@[j] == earlier[j]);
                    }
                }
            }
            k += 1;
        }
        let finite_config = IntegrationConfig {
            tolerance: config.tolerance,
            max_evals: config.max_evals,
            points,
        };
        proof {
            assert(are_images(fl, config.points@, finite_config.points@));
        }
        self.finite.integrate_mapped(fl, f, &finite_range, &finite_config, transform)
    }
}

impl<A: Float, F: Integrand> Described<A, F> for QAGP_FINITE {
    open spec fn runs(
        &self,
        fl: &A,
        before: F,
        range: Range,
        config: IntegrationConfig,
        res: IntegrationResult,
        after: &Self,
        integrand: F,
    ) -> bool {
        qagp_run(fl, before, self.workspace, range, config, false, res, integrand, after.workspace)
    }

    fn integrate_described(
        &mut self,
        fl: &A,
        f: &mut F,
        range: &Range,
        config: &IntegrationConfig,
    ) -> (res: IntegrationResult) {
        self.integrate(fl, f, range, config)
    }
}

impl<A: Float, F: Integrand> Described<A, F> for QAGP {
    open spec fn runs(
        &self,
        fl: &A,
        before: F,
        range: Range,
        config: IntegrationConfig,
        res: IntegrationResult,
        after: &Self,
        integrand: F,
    ) -> bool {
        qagp_front(
            fl,
            before,
            self.finite.workspace,
            range,
            config,
            res,
            integrand,
            after.finite.workspace,
        )
    }

    fn integrate_described(
        &mut self,
        fl: &A,
        f: &mut F,
        range: &Range,
        config: &IntegrationConfig,
    ) -> (res: IntegrationResult) {
        self.integrate(fl, f, range, config)
    }
}

impl Default for QAGP_FINITE {
    fn default() -> (r: Self)
        ensures
            r.workspace.wf(),
            r.workspace.subranges@.len() == 0,
    {
        Self::new()
    }
}

impl Default for QAGP {
    fn default() -> (r: Self)
        ensures
            r.finite.workspace.wf(),
            r.finite.workspace.subranges@.len() == 0,
    {
        Self::new()
    }
}

} // verus!
