//! Adaptive bisection with extrapolation of the sequence of area estimates.
#![allow(non_camel_case_types)]

use vstd::prelude::*;
use crate::common::{IntegrationResult, Solution};
use crate::error::RuntimeError;
use crate::float::{
    Double,
    Float,
    HUNDRED_EPSILON_BITS,
    MAX_BITS,
};
use crate::single::algorithm::initial::{
    initial_gives,
    initial_integral,
    lemma_accepted_at_once,
    Initial,
    InitialStep,
};
use crate::single::algorithm::qag::{
    ended_at,
    bisection_outcome,
    bisections_allowed,
    failed_transform,
    halves,
    is_mapped,
};
use crate::single::algorithm::search::{
    begin,
    begun,
    cursors,
    ends,
    explores,
    halve,
    lemma_linked,
    linked,
    moved,
    proceeds,
    searches,
    turn_s,
    turns,
    Course,
    Halved,
    Point,
    Step,
    Turn,
};
use crate::single::algorithm::reconcile::{finish, reconcile};
use crate::single::algorithm::{Algorithm, Described};
use crate::single::common::{Integrand, IntegrationConfig, Range};
use crate::single::qk::{qk25_mapped, rule25, rule_gives};
use crate::single::util::{bisect, transform_range};
use crate::single::workspace::{SubRangeInfo, WorkSpace};

verus! {

/// Whether `start` is where the bisections begin after the first estimates
/// `first` over `range`: the integrand as they left it, one record for the
/// whole range under the cursor, and their estimates for the sums and in
/// the table.
pub open spec fn starts_search<F>(start: Point<F>, mid: F, range: Range, first: Initial) -> bool {
    &&& start.f == mid
    &&& begun(
        start.st,
        first.solution.estimate,
        first.solution.delta,
        Double::from_bits(0),
        Double::from_bits(0),
        first.solution.nevals,
    )
    &&& start.ws.subranges@ == seq![
        (SubRangeInfo {
            range,
            estimate: first.solution.estimate,
            delta: first.solution.delta,
            level: 0,
        }),
    ]
    &&& start.ws.order@ == seq![0usize]
    &&& start.ws.nrmax == 0
    &&& start.ws.i == 0
    &&& start.ws.maximum_level == 0
}

/// The course of an integration without singular points after the first
/// estimates `first`.
pub open spec fn course_of(config: IntegrationConfig, first: Initial) -> Course {
    Course { pieces: false, nint: 0, allowed: bisections_allowed(config, first) as usize }
}

/// Whether `res`, `after` and `ws1` are what follows the test on the budget.
/// With a budget below 17 evaluations the integrand is left as it was.
/// Otherwise the first estimates are made over the whole range. Where they
/// accept or fail, the result is theirs, and the workspace and the integrand
/// are left as the first estimates left them. Where they ask for bisection,
/// the bisections follow: see `explores`.
pub open spec fn qags_follows<A: Float, F: Integrand>(
    fl: &A,
    before: F,
    ws0: WorkSpace,
    range: Range,
    config: IntegrationConfig,
    transform: bool,
    res: IntegrationResult,
    after: F,
    ws1: WorkSpace,
) -> bool {
    if config.max_evals < 17 {
        after == before
    } else {
        exists|first: Initial, mid: F| #[trigger]
            initial_gives(
                fl,
                before,
                range,
                config,
                Double::from_bits(HUNDRED_EPSILON_BITS),
                transform,
                first,
                mid,
            ) && match first.step {
                InitialStep::Accept => res == ended_at(first, None) && after == mid && ws1 == ws0,
                InitialStep::Fail(e) => res == ended_at(first, Some(e)) && after == mid && ws1
                    == ws0,
                _ => exists|start: Point<F>| #[trigger]
                    starts_search(start, mid, range, first) && explores(
                        fl,
                        config,
                        transform,
                        course_of(config, first),
                        start,
                        first.solution.estimate,
                        first.absvalue,
                        res,
                        after,
                        ws1,
                    ),
            }
    }
}

/// A chain of bisections from where the first estimates ended, with the
/// result that ends it, is what follows first estimates that ask for
/// bisection.
proof fn lemma_qags_follows<A: Float, F: Integrand>(
    fl: &A,
    before: F,
    ws0: WorkSpace,
    range: Range,
    config: IntegrationConfig,
    transform: bool,
    first: Initial,
    mid: F,
    points: Seq<Point<F>>,
    outs: Seq<Step>,
    res: IntegrationResult,
)
    requires
        config.max_evals >= 17,
        initial_gives(
            fl,
            before,
            range,
            config,
            Double::from_bits(HUNDRED_EPSILON_BITS),
            transform,
            first,
            mid,
        ),
        first.step == InitialStep::Refine,
        linked(fl, config, transform, course_of(config, first), points, outs),
        points.len() == outs.len() + 1,
        starts_search(points[0], mid, range, first),
        outs.len() <= course_of(config, first).allowed,
        ends(
            fl,
            course_of(config, first),
            first.solution.estimate,
            first.absvalue,
            points.last(),
            outs,
            res,
        ),
    ensures
        qags_follows(
            fl,
            before,
            ws0,
            range,
            config,
            transform,
            res,
            points.last().f,
            points.last().ws,
        ),
{
    assert(explores(
        fl,
        config,
        transform,
        course_of(config, first),
        points[0],
        first.solution.estimate,
        first.absvalue,
        res,
        points.last().f,
        points.last().ws,
    ));
}

/// Whether an integration by `QAGS_FINITE` over `range`, made of the
/// integrand `before` with the workspace `ws0`, may return `res` and leave
/// the integrand as `after` and the workspace as `ws1`. A result without an
/// error has an error estimate that the tolerance accepts.
pub open spec fn qags_run<A: Float, F: Integrand>(
    fl: &A,
    before: F,
    ws0: WorkSpace,
    range: Range,
    config: IntegrationConfig,
    transform: bool,
    res: IntegrationResult,
    after: F,
    ws1: WorkSpace,
) -> bool {
    &&& bisection_outcome(ws0, ws1, config, res)
    &&& res.error.is_none() ==> config.tolerance.accepts(fl, res.value.delta)
    &&& qags_follows(fl, before, ws0, range, config, transform, res, after, ws1)
}

/// QAGS algorithm over finite range: adaptive bisection, with the epsilon
/// algorithm applied to the area estimates once the bisection has reached the
/// smallest subranges.
#[derive(Clone, Debug)]
pub struct QAGS_FINITE {
    pub workspace: WorkSpace,
}

impl QAGS_FINITE {
    pub fn new() -> (r: Self)
        ensures
            r.workspace.wf(),
            r.workspace.subranges@.len() == 0,
    {
        Self { workspace: WorkSpace::new() }
    }

    /// An algorithm that works in the given workspace, whatever it holds.
    pub fn with_workspace(workspace: WorkSpace) -> (r: Self)
        ensures
            r.workspace == workspace,
    {
        Self { workspace }
    }

    /// Integrates `f` over `range`, which is taken to be finite.
    ///
    /// With a budget below 17 evaluations nothing is evaluated. Otherwise the
    /// number of evaluations stays within the budget, and the workspace holds
    /// the subranges that were evaluated last.
    ///
    /// With `transform` set the integrand is taken through the substitution
    /// that maps the range from -1 to 1 onto the whole line.
    #[verifier::rlimit(40)]
    pub fn integrate_mapped<A: Float, F: Integrand>(
        &mut self,
        fl: &A,
        f: &mut F,
        range: &Range,
        config: &IntegrationConfig,
        transform: bool,
    ) -> (res: IntegrationResult)
        requires
            old(f).inv(),
            range.wf(),
            config.wf(),
        ensures
            qags_run(
                fl,
                *old(f),
                old(self).workspace,
                *range,
                *config,
                transform,
                res,
                *final(f),
                final(self).workspace,
            ),
            final(f).inv(),
    {
        if config.max_evals < 17 {
            return finish(
                Solution::default().estimate,
                Solution::default().delta,
                0,
                Some(RuntimeError::InsufficientIteration),
            );
        }
        let first = initial_integral(
            fl,
            f,
            range,
            config,
            Double::from_bits(HUNDRED_EPSILON_BITS),
            transform,
        );
        let ghost mid = *f;
        let result0 = first.solution;
        let absvalue = first.absvalue;
        match first.step {
            InitialStep::Accept => {
                proof {
                    lemma_accepted_at_once(
                        fl,
                        *old(f),
                        *range,
                        *config,
                        Double::from_bits(HUNDRED_EPSILON_BITS),
                        transform,
                        first,
                        mid,
                    );
                }
                return finish(result0.estimate, result0.delta, result0.nevals, None);
            },
            InitialStep::Fail(e) => {
                return finish(result0.estimate, result0.delta, result0.nevals, Some(e));
            },
            _ => {},
        }
        self.workspace.clear();
        self.workspace.reserve((config.max_evals - result0.nevals) / 50 + 1);
        self.workspace.push(SubRangeInfo::new(*range, result0.estimate, result0.delta, 0));

        // the first estimate is the best result so far, and enters the table
        // of the extrapolation
        let zero = Double::from_bits(0);
        let mut st = begin(result0.estimate, result0.delta, zero, zero, result0.nevals);
        let max_iters = (config.max_evals - result0.nevals) / 50;
        let mut stopped = false;
        let mut nan = false;
        let ghost course = course_of(*config, first);
        let ghost mut points: Seq<Point<F>> = seq![Point { f: *f, ws: self.workspace, st }];
        let ghost mut outs: Seq<Step> = Seq::empty();
        proof {
            reveal(linked);
            assert(self.workspace.subranges@ =~= seq![
                (SubRangeInfo {
                    range: *range,
                    estimate: first.solution.estimate,
                    delta: first.solution.delta,
                    level: 0,
                }),
            ]);
            assert(self.workspace.order@ =~= seq![0usize]);
            assert(linked(fl, *config, transform, course, points, outs));
        }

        while st.bisections < max_iters
            invariant_except_break
                !stopped,
                !nan,
                st.error.is_none(),
                outs.len() == st.bisections,
                outs.len() > 0 ==> proceeds(outs.last()),
                self.workspace.aligned(),
                self.workspace.levels_bounded(),
            invariant
                f.inv(),
                initial_gives(
                    fl,
                    *old(f),
                    *range,
                    *config,
                    Double::from_bits(HUNDRED_EPSILON_BITS),
                    transform,
                    first,
                    mid,
                ),
                first.step == InitialStep::Refine,
                first.solution == result0,
                first.absvalue == absvalue,
                course == course_of(*config, first),
                config.max_evals >= 17,
                st.inv(),
                st.bisections <= max_iters,
                self.workspace.subranges@.len() == st.bisections + 1,
                st.nevals == result0.nevals + 50 * st.bisections,
                max_iters == (config.max_evals - result0.nevals) / 50,
                result0.nevals == 17 || result0.nevals == 42,
                result0.nevals <= config.max_evals,
                self.workspace.wf(),
                linked(fl, *config, transform, course, points, outs),
                points.len() == outs.len() + 1,
                starts_search(points[0], mid, *range, first),
                points.last() == (Point { f: *f, ws: self.workspace, st }),
                outs.len() <= max_iters,
                st.error != Some(RuntimeError::InsufficientIteration),
                st.error != Some(RuntimeError::NanValueEncountered),
            ensures
                !(nan && stopped),
                nan ==> outs.len() > 0 && outs.last() is Nan && st.bisections < max_iters
                    && st.error.is_none(),
                stopped ==> outs.len() > 0 && outs.last() == Step::Turned(Turn::Stop) && (
                st.error.is_none() ==> config.tolerance.admits(st.err_ext)
                    && config.tolerance.accepts(fl, st.err_ext) && !st.err_ext.num_eq(
                    Double::from_bits(MAX_BITS),
                )),
                !nan && !stopped ==> outs.len() == max_iters && st.bisections == max_iters && (
                outs.len() > 0 ==> proceeds(outs.last())) && st.error.is_none(),
            decreases max_iters - st.bisections,
        {
            // Bisect the subrange with the largest error estimate
            let info = *self.workspace.get();
            let ghost a = Point { f: *f, ws: self.workspace, st };
            let (r1, r2) = bisect(fl, &info.range);

            // Gauss-Kronrod integration over each half
            let result1 = qk25_mapped(fl, f, &r1, transform);
            let ghost between = *f;
            let result2 = qk25_mapped(fl, f, &r2, transform);

            let count = st.bisections + 1;
            let (out, h) = halve(
                fl,
                &mut self.workspace,
                &mut st,
                r1,
                r2,
                result1,
                result2,
                config,
                count,
            );
            let ghost kept = self.workspace;
            let ghost carried_on = st;
            match out {
                Halved::Nan => {
                    proof {
                        let b = Point { f: *f, ws: self.workspace, st };
                        assert(searches(fl, *config, transform, course, a, Step::Nan, b)) by {
                            reveal(searches);
                            assert(halves(fl, info.range, r1, r2));
                            assert(rule_gives(fl, a.f, r1, rule25(), transform, result1, between)
                                && rule_gives(fl, between, r2, rule25(), transform, result2, b.f));
                        }
                        lemma_linked(fl, *config, transform, course, points, outs, Step::Nan, b);
                        assert(points.push(b)[0] == points[0]);
                        points = points.push(b);
                        outs = outs.push(Step::Nan);
                    }
                    nan = true;
                    break ;
                },
                Halved::Done(res) => {
                    proof {
                        let b = Point { f: *f, ws: self.workspace, st };
                        assert(searches(fl, *config, transform, course, a, Step::Done(res), b))
                            by {
                            reveal(searches);
                            assert(halves(fl, info.range, r1, r2));
                            assert(rule_gives(fl, a.f, r1, rule25(), transform, result1, between)
                                && rule_gives(fl, between, r2, rule25(), transform, result2, b.f));
                        }
                        lemma_linked(
                            fl,
                            *config,
                            transform,
                            course,
                            points,
                            outs,
                            Step::Done(res),
                            b,
                        );
                        assert(points.push(b)[0] == points[0]);
                        points = points.push(b);
                        outs = outs.push(Step::Done(res));
                        lemma_qags_follows(
                            fl,
                            *old(f),
                            old(self).workspace,
                            *range,
                            *config,
                            transform,
                            first,
                            mid,
                            points,
                            outs,
                            res,
                        );
                    }
                    return res;
                },
                Halved::Kept => {},
            }
            let (turn, t) = turn_s(
                fl,
                &mut self.workspace,
                &mut st,
                &h,
                info.delta,
                info.level + 1,
                config,
            );
            proof {
                let b = Point { f: *f, ws: self.workspace, st };
                assert(searches(fl, *config, transform, course, a, Step::Turned(turn), b)) by {
                    reveal(searches);
                    assert(halves(fl, info.range, r1, r2));
                    assert(turns(
                        fl,
                        *config,
                        course,
                        carried_on,
                        kept,
                        h,
                        info.delta,
                        (info.level + 1) as usize,
                        t,
                        b.st,
                        turn,
                        cursors(b.ws),
                    ));
                    assert(moved(kept, cursors(b.ws), b.ws));
                    assert(rule_gives(fl, a.f, r1, rule25(), transform, result1, between)
                        && rule_gives(fl, between, r2, rule25(), transform, result2, b.f));
                }
                lemma_linked(fl, *config, transform, course, points, outs, Step::Turned(turn), b);
                assert(points.push(b)[0] == points[0]);
                points = points.push(b);
                outs = outs.push(Step::Turned(turn));
            }
            match turn {
                Turn::Stop => {
                    stopped = true;
                    break ;
                },
                Turn::GoOn => {},
            }
        }

        let mut nevals = st.nevals;
        let mut error = st.error;
        if nan {
            nevals += 50;
            error = Some(RuntimeError::NanValueEncountered);
        } else if !stopped && error.is_none() {
            error = Some(RuntimeError::InsufficientIteration);
        }
        let res = reconcile(
            fl,
            &self.workspace,
            st.res_ext,
            st.err_ext,
            st.correc,
            st.area,
            st.errsum,
            result0.estimate,
            absvalue,
            nevals,
            error,
            st.error2,
        );
        proof {
            lemma_qags_follows(
                fl,
                *old(f),
                old(self).workspace,
                *range,
                *config,
                transform,
                first,
                mid,
                points,
                outs,
                res,
            );
        }
        res
    }
}

impl Algorithm for QAGS_FINITE {
    /// What the integration promises whatever the integrand returns.
    open spec fn gives(
        &self,
        range: Range,
        config: IntegrationConfig,
        res: IntegrationResult,
        after: &Self,
    ) -> bool {
        bisection_outcome(self.workspace, after.workspace, config, res)
    }

    /// Integrates `f` over `range`, which is taken to be finite.
    ///
    /// With a budget below 17 evaluations nothing is evaluated. Otherwise the
    /// number of evaluations stays within the budget, and the workspace holds
    /// the subranges that were evaluated last.
    fn integrate<A: Float, F: Integrand>(
        &mut self,
        fl: &A,
        f: &mut F,
        range: &Range,
        config: &IntegrationConfig,
    ) -> (res: IntegrationResult)
        ensures
            qags_run(
                fl,
                *old(f),
                old(self).workspace,
                *range,
                *config,
                false,
                res,
                *final(f),
                final(self).workspace,
            ),
    {
        self.integrate_mapped(fl, f, range, config, false)
    }
}

/// Whether an integration by `QAGS` over `range`, made of the integrand
/// `before` with the workspace `ws0`, may return `res` and leave the
/// integrand as `after` and the workspace as `ws1`. The range is mapped
/// where an end is infinite. Where the arithmetic gives a NaN for an end of
/// the mapped range, the integration fails at once and leaves the workspace
/// and the integrand as they were. Otherwise see `qags_run`, over the
/// mapped range.
pub open spec fn qags_front<A: Float, F: Integrand>(
    fl: &A,
    before: F,
    ws0: WorkSpace,
    range: Range,
    config: IntegrationConfig,
    res: IntegrationResult,
    after: F,
    ws1: WorkSpace,
) -> bool {
    exists|mapped: Range| #[trigger]
        is_mapped(fl, range, mapped) && if mapped.wf() {
            qags_run(fl, before, ws0, mapped, config, !range.finite(), res, after, ws1)
        } else {
            failed_transform(res) && after == before && ws1 == ws0
        }
}

/// QAGS algorithm: `QAGS_FINITE` behind the substitution that maps an infinite
/// range to a finite one.
#[derive(Clone, Debug)]
pub struct QAGS {
    pub finite: QAGS_FINITE,
}

impl QAGS {
    pub fn new() -> (r: Self)
        ensures
            r.finite.workspace.wf(),
            r.finite.workspace.subranges@.len() == 0,
    {
        Self { finite: QAGS_FINITE::new() }
    }

    /// An algorithm that works in the given workspace, whatever it holds.
    pub fn with_workspace(workspace: WorkSpace) -> (r: Self)
        ensures
            r.finite.workspace == workspace,
    {
        Self { finite: QAGS_FINITE::with_workspace(workspace) }
    }

    /// The workspace, with the subranges of the last integration.
    pub fn workspace(&self) -> (ws: &WorkSpace)
        ensures
            *ws == self.finite.workspace,
    {
        &self.finite.workspace
    }
}

impl Algorithm for QAGS {
    /// What the integration promises whatever the integrand returns.
    open spec fn gives(
        &self,
        range: Range,
        config: IntegrationConfig,
        res: IntegrationResult,
        after: &Self,
    ) -> bool {
        (bisection_outcome(self.finite.workspace, after.finite.workspace, config, res) || (
        !range.finite() && failed_transform(res) && after.finite.workspace
            == self.finite.workspace))
    }

    /// Integrates `f` over `range`. Where an end of the range is infinite,
    /// the range and the integrand are transformed first.
    fn integrate<A: Float, F: Integrand>(
        &mut self,
        fl: &A,
        f: &mut F,
        range: &Range,
        config: &IntegrationConfig,
    ) -> (res: IntegrationResult)
        ensures
            qags_front(
                fl,
                *old(f),
                old(self).finite.workspace,
                *range,
                *config,
                res,
                *final(f),
                final(self).finite.workspace,
            ),
    {
        let transform = !range.begin.is_finite() || !range.end.is_finite();
        let finite_range = if transform {
            transform_range(fl, range)
        } else {
            *range
        };
        proof {
            assert(is_mapped(fl, *range, finite_range));
        }
        if finite_range.begin.is_nan() || finite_range.end.is_nan() {
            // the arithmetic has failed on an end of the range
            return finish(
                Solution::default().estimate,
                Solution::default().delta,
                0,
                Some(RuntimeError::NanValueEncountered),
            );
        }
        self.finite.integrate_mapped(fl, f, &finite_range, config, transform)
    }
}

impl<A: Float, F: Integrand> Described<A, F> for QAGS_FINITE {
    open spec fn runs(
        &self,
        fl: &A,
        before: F,
        range: Range,
        config: IntegrationConfig,
        res: IntegrationResult,
        after: &Self,
        integrand: F,
    ) -> bool {
        qags_run(fl, before, self.workspace, range, config, false, res, integrand, after.workspace)
    }

    fn integrate_described(
        &mut self,
        fl: &A,
        f: &mut F,
        range: &Range,
        config: &IntegrationConfig,
    ) -> (res: IntegrationResult) {
        self.integrate(fl, f, range, config)
    }
}

impl<A: Float, F: Integrand> Described<A, F> for QAGS {
    open spec fn runs(
        &self,
        fl: &A,
        before: F,
        range: Range,
        config: IntegrationConfig,
        res: IntegrationResult,
        after: &Self,
        integrand: F,
    ) -> bool {
        qags_front(
            fl,
            before,
            self.finite.workspace,
            range,
            config,
            res,
            integrand,
            after.finite.workspace,
        )
    }

    fn integrate_described(
        &mut self,
        fl: &A,
        f: &mut F,
        range: &Range,
        config: &IntegrationConfig,
    ) -> (res: IntegrationResult) {
        self.integrate(fl, f, range, config)
    }
}

impl Default for QAGS_FINITE {
    fn default() -> (r: Self)
        ensures
            r.workspace.wf(),
            r.workspace.subranges@.len() == 0,
    {
        Self::new()
    }
}

impl Default for QAGS {
    fn default() -> (r: Self)
        ensures
            r.finite.workspace.wf(),
            r.finite.workspace.subranges@.len() == 0,
    {
        Self::new()
    }
}

} // verus!
