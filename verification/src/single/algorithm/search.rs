//! Bisection with extrapolation: what is carried from one bisection to the
//! next, and the step that follows the evaluation of the two halves.

use vstd::prelude::*;
use crate::common::{IntegrationResult, Solution, ValueWithError};
use crate::error::RuntimeError;
use crate::float::{is_total, Double, Float, BITS_0_001, BITS_0_99, BITS_1E_5, MAX_BITS};
use crate::single::algorithm::qag::{half_record, halves, is_narrowness, uncertain};
use crate::single::algorithm::reconcile::reconciles;
use crate::single::algorithm::reconcile::finish;
use crate::single::algorithm::roundoff::{bisection_stalled, Roundoff};
use crate::single::common::{Integrand, IntegrationConfig, Range};
use crate::single::qelg::{ExtrapolationTable};
use crate::single::qk::{rule25, rule_gives, QKResult};
use crate::single::util::subrange_too_small;
use crate::single::workspace::{SubRangeInfo, WorkSpace};

verus! {

/// What a bisecting integration with extrapolation carries from one
/// bisection to the next.
#[derive(Clone, Copy, Debug)]
pub struct Search {
    /// the sum of the estimates over the subranges, kept up by differences
    pub area: Double,
    /// the sum of the error estimates over the subranges
    pub errsum: Double,
    /// the best extrapolated limit so far
    pub res_ext: Double,
    /// its error estimate; the largest finite double while there is none
    pub err_ext: Double,
    /// the error over the larger subranges when the best limit was found
    pub correc: Double,
    /// the tolerance that the error over the larger subranges is held to
    pub ertest: Double,
    /// the sum of the error estimates over the subranges that are not of
    /// the smallest size
    pub error_over_large_ranges: Double,
    /// the limit of the last extrapolation
    pub reseps: Double,
    /// its error estimate
    pub abseps: Double,
    /// the counts of round-off
    pub roundoff: Roundoff,
    /// the extrapolations since the best limit was found
    pub ktmin: usize,
    /// the error met so far
    pub error: Option<RuntimeError>,
    /// whether the extrapolated error estimate is in doubt
    pub error2: bool,
    /// whether the smallest subranges are being bisected for the next
    /// extrapolation
    pub extrapolate: bool,
    /// whether extrapolation has been given up
    pub disallow_extrapolation: bool,
    /// the table of the epsilon algorithm
    pub table: ExtrapolationTable,
    /// the evaluations so far
    pub nevals: usize,
    /// the bisections that have kept their halves
    pub bisections: usize,
}

impl Search {
    /// The counts stay within the number of bisections, the table is
    /// well-formed, and the best error estimate is no NaN.
    pub open spec fn inv(&self) -> bool {
        &&& self.table.wf()
        &&& self.table.nres <= self.bisections
        &&& self.ktmin <= self.bisections
        &&& self.roundoff.type1 <= self.bisections
        &&& self.roundoff.type2 <= self.bisections
        &&& self.roundoff.type3 <= self.bisections
        &&& self.err_ext.le(Double::from_bits(MAX_BITS))
    }
}

/// What the arithmetic gave in the bisection of one record. A value that the
/// bisection did not ask for is zero.
#[derive(Clone, Copy, Debug, PartialEq, Eq)]
pub struct Sums {
    /// the sum of the estimates over the two halves
    pub area12: Double,
    /// the sum of their error estimates
    pub error12: Double,
    /// `error12` less the error estimate of the bisected subrange
    pub error_gain: Double,
    /// the new sum of the error estimates
    pub errsum: Double,
    /// `area12` less the estimate of the bisected subrange
    pub area_gain: Double,
    /// the new sum of the estimates
    pub area: Double,
    /// the tolerance at the magnitude of `area`
    pub tolerance: Double,
    /// the estimate of the bisected subrange less `area12`
    pub drift: Double,
    /// `1e-5` times the magnitude of `area12`
    pub slack: Double,
    /// 99% of the error estimate of the bisected subrange
    pub shrunk: Double,
    /// whether the halves are too narrow to be bisected again
    pub narrow: bool,
    /// the sum of the estimates of all records
    pub total: Double,
    /// `total` less the estimate of the bisected subrange
    pub less: Double,
    /// `less` plus the estimate over the first half
    pub with_first: Double,
    /// `with_first` plus the estimate over the second half
    pub sum: Double,
}

/// What follows the evaluation of the two halves of a record.
#[derive(Clone, Copy, Debug, PartialEq, Eq)]
pub enum Halved {
    /// An estimate over a half is a NaN: the integration ends with the
    /// records as they were.
    Nan,
    /// The sum of the error estimates meets the tolerance: the integration
    /// ends with this result, and the records as they were.
    Done(IntegrationResult),
    /// The halves have taken the place of the subrange.
    Kept,
}

/// The counts of round-off after the bisection of the record `info`, which
/// is the bisection number `count`.
pub open spec fn recorded(
    st: Search,
    info: SubRangeInfo,
    q1: QKResult,
    q2: QKResult,
    h: Sums,
    count: usize,
) -> Roundoff {
    if uncertain(q1, q2) {
        st.roundoff.spec_record(
            true,
            h.drift.abs().le(h.slack) && h.error12.ge(h.shrunk),
            h.error12.gt(info.delta),
            st.extrapolate,
            count,
        )
    } else {
        st.roundoff
    }
}

/// The error after the bisection of the record `info`: `SubrangeTooSmall`
/// for halves too narrow to bisect, else `RoundoffError` for too much
/// round-off, else the error so far.
pub open spec fn flagged(
    st: Search,
    info: SubRangeInfo,
    q1: QKResult,
    q2: QKResult,
    h: Sums,
    count: usize,
) -> Option<RuntimeError> {
    if h.narrow {
        Some(RuntimeError::SubrangeTooSmall)
    } else if recorded(st, info, q1, q2, h, count).spec_excessive() {
        Some(RuntimeError::RoundoffError)
    } else {
        st.error
    }
}

/// What follows the evaluation of the halves of the record `info`, with the
/// results `q1` and `q2`, given what the arithmetic has made of them: a NaN
/// estimate ends the integration; so does a sum of the error estimates
/// within the tolerance, with the sum of the estimates, the halves in place
/// of the subrange; otherwise the halves are kept.
pub open spec fn spec_halved(
    st: Search,
    info: SubRangeInfo,
    q1: QKResult,
    q2: QKResult,
    h: Sums,
    count: usize,
) -> Halved {
    if q1.estimate.is_nan() || q2.estimate.is_nan() {
        Halved::Nan
    } else if h.errsum.le(h.tolerance) {
        Halved::Done(
            ValueWithError {
                value: Solution {
                    estimate: h.sum,
                    delta: h.errsum,
                    nevals: (st.nevals + 50) as usize,
                },
                error: flagged(st, info, q1, q2, h, count),
            },
        )
    } else {
        Halved::Kept
    }
}

/// What is carried on after the evaluation of the halves of the record
/// `info`, unless an estimate is a NaN: the new sums, counts and flags, 50
/// evaluations more, and one bisection more where the halves are kept.
pub open spec fn carried(
    st: Search,
    info: SubRangeInfo,
    q1: QKResult,
    q2: QKResult,
    h: Sums,
    count: usize,
) -> Search {
    if q1.estimate.is_nan() || q2.estimate.is_nan() {
        st
    } else {
        Search {
            area: h.area,
            errsum: h.errsum,
            roundoff: recorded(st, info, q1, q2, h, count),
            error: flagged(st, info, q1, q2, h, count),
            error2: st.error2 || recorded(st, info, q1, q2, h, count).spec_doubtful(),
            nevals: (st.nevals + 50) as usize,
            bisections: if h.errsum.le(h.tolerance) {
                st.bisections
            } else {
                (st.bisections + 1) as usize
            },
            ..st
        }
    }
}

/// Whether `h` holds what the arithmetic `fl` may give in the bisection of
/// the record `info`, with `estimates` the estimates of all records, into
/// halves with the results `q1` and `q2`: the sums over the halves, the new
/// sums over all subranges, the tolerance at the new estimate and the test
/// on the width of the halves; for uncertain halves what the test on a
/// stalled bisection compares; and the sum of the estimates where the
/// tolerance is met.
pub open spec fn halving_sums<A: Float>(
    fl: &A,
    estimates: Seq<Double>,
    st: Search,
    info: SubRangeInfo,
    r1: Range,
    r2: Range,
    q1: QKResult,
    q2: QKResult,
    config: IntegrationConfig,
    h: Sums,
) -> bool {
    q1.estimate.is_nan() || q2.estimate.is_nan() || {
        &&& fl.is_sum(q1.estimate, q2.estimate, h.area12)
        &&& fl.is_sum(q1.delta, q2.delta, h.error12)
        &&& fl.is_difference(h.error12, info.delta, h.error_gain)
        &&& fl.is_sum(st.errsum, h.error_gain, h.errsum)
        &&& fl.is_difference(h.area12, info.estimate, h.area_gain)
        &&& fl.is_sum(st.area, h.area_gain, h.area)
        &&& config.tolerance.is_absolute(fl, h.area.abs(), h.tolerance)
        &&& uncertain(q1, q2) ==> {
            &&& fl.is_difference(info.estimate, h.area12, h.drift)
            &&& fl.is_product(Double::from_bits(BITS_1E_5), h.area12.abs(), h.slack)
            &&& fl.is_product(Double::from_bits(BITS_0_99), info.delta, h.shrunk)
        }
        &&& is_narrowness(fl, r1, r2, h.narrow)
        &&& h.errsum.le(h.tolerance) ==> {
            &&& is_total(fl, estimates, h.total)
            &&& fl.is_difference(h.total, info.estimate, h.less)
            &&& fl.is_sum(h.less, q1.estimate, h.with_first)
            &&& fl.is_sum(h.with_first, q2.estimate, h.sum)
        }
    }
}

/// Decides what follows the bisection of the record under the cursor of `ws`
/// into `r1` and `r2`, over which the rule has given `q1` and `q2`; keeps the
/// halves in `ws` where the integration goes on, and carries the sums on in
/// `st`: see `spec_halved` and `carried`. `count` is the number of the
/// bisection for the counts of round-off. The second part of the result is
/// what the arithmetic gave on the way.
pub fn halve<A: Float>(
    fl: &A,
    ws: &mut WorkSpace,
    st: &mut Search,
    r1: Range,
    r2: Range,
    q1: QKResult,
    q2: QKResult,
    config: &IntegrationConfig,
    count: usize,
) -> (r: (Halved, Sums))
    requires
        old(ws).wf(),
        old(ws).aligned(),
        old(ws).levels_bounded(),
        old(ws).subranges@.len() < usize::MAX,
        old(st).inv(),
        old(st).bisections < usize::MAX / 4,
        old(st).nevals <= usize::MAX - 50,
    ensures
        halving_sums(
            fl,
            old(ws).estimates(),
            *old(st),
            old(ws).subranges@[old(ws).i as int],
            r1,
            r2,
            q1,
            q2,
            *config,
            r.1,
        ),
        r.0 == spec_halved(
            *old(st),
            old(ws).subranges@[old(ws).i as int],
            q1,
            q2,
            r.1,
            count,
        ),
        *final(st) == carried(
            *old(st),
            old(ws).subranges@[old(ws).i as int],
            q1,
            q2,
            r.1,
            count,
        ),
        !(r.0 is Done) ==> final(st).inv(),
        r.0 is Kept ==> old(ws).updated(
            half_record(old(ws).subranges@[old(ws).i as int], r1, q1),
            half_record(old(ws).subranges@[old(ws).i as int], r2, q2),
            *final(ws),
        ) && final(ws).wf() && final(ws).levels_bounded(),
        !(r.0 is Kept) ==> *final(ws) == *old(ws),
        r.0 is Done ==> (final(st).error.is_none() ==> config.tolerance.admits(final(st).errsum)),
        r.0 is Done ==> config.tolerance.accepts(fl, final(st).errsum),
{
    let zero = Double::from_bits(0);
    let mut h = Sums {
        area12: zero,
        error12: zero,
        error_gain: zero,
        errsum: zero,
        area_gain: zero,
        area: zero,
        tolerance: zero,
        drift: zero,
        slack: zero,
        shrunk: zero,
        narrow: false,
        total: zero,
        less: zero,
        with_first: zero,
        sum: zero,
    };
    if q1.estimate.is_nan() || q2.estimate.is_nan() {
        return (Halved::Nan, h);
    }
    let info = *ws.get();
    st.nevals += 50;

    // replace the estimates of the range by the sums over its halves
    h.area12 = fl.add(q1.estimate, q2.estimate);
    h.error12 = fl.add(q1.delta, q2.delta);
    h.error_gain = fl.sub(h.error12, info.delta);
    h.errsum = fl.add(st.errsum, h.error_gain);
    h.area_gain = fl.sub(h.area12, info.estimate);
    h.area = fl.add(st.area, h.area_gain);
    st.errsum = h.errsum;
    st.area = h.area;
    h.tolerance = config.tolerance.to_abs(fl, h.area.abs());

    // In theory the deviation from the mean and the error estimate differ;
    // where round-off makes them equal, the half is not counted.
    if q1.asc.num_ne(q1.delta) && q2.asc.num_ne(q2.delta) {
        h.drift = fl.sub(info.estimate, h.area12);
        h.slack = fl.mul(Double::from_bits(BITS_1E_5), h.area12.abs());
        h.shrunk = fl.mul(Double::from_bits(BITS_0_99), info.delta);
        let stalled = bisection_stalled(h.drift, h.slack, h.error12, h.shrunk);
        st.roundoff = st.roundoff.record(
            true,
            stalled,
            h.error12.gt(info.delta),
            st.extrapolate,
            count,
        );
    }
    // Test for roundoff and eventually set error flag

    if st.roundoff.excessive() {
        st.error = Some(RuntimeError::RoundoffError);
    }
    if st.roundoff.doubtful() {
        st.error2 = true;
    }
    // set error flag in the case of bad integrand behaviour at a point of
    // the integration range

    h.narrow = subrange_too_small(fl, r1.begin, r1.end, r2.end);
    if h.narrow {
        st.error = Some(RuntimeError::SubrangeTooSmall);
    }
    // within the tolerance: return at once

    if h.errsum.le(h.tolerance) {
        h.total = ws.sum_results(fl);
        h.less = fl.sub(h.total, info.estimate);
        h.with_first = fl.add(h.less, q1.estimate);
        h.sum = fl.add(h.with_first, q2.estimate);
        proof {
            assert(config.tolerance.meets(fl, h.area.abs(), h.errsum));
        }
        return (Halved::Done(finish(h.sum, h.errsum, st.nevals, st.error)), h);
    }
    // append the newly-created ranges to the list

    let level = info.level + 1;
    ws.update(
        SubRangeInfo::new(r1, q1.estimate, q1.delta, level),
        SubRangeInfo::new(r2, q2.estimate, q2.delta, level),
    );
    st.bisections += 1;
    (Halved::Kept, h)
}

/// What the arithmetic and the epsilon algorithm gave after a bisection
/// whose halves were kept. A value that was not asked for is as it was
/// handed in.
#[derive(Clone, Copy, Debug)]
pub struct Trail {
    /// the error over the larger subranges, less the error estimate of the
    /// bisected subrange
    pub lessened: Double,
    /// `lessened` plus the sum of the error estimates over the halves
    pub enlarged: Double,
    /// the table after the sum of the estimates was appended
    pub appended: ExtrapolationTable,
    /// the table after the extrapolation
    pub extrapolated: ExtrapolationTable,
    /// the limit of the extrapolation
    pub reseps: Double,
    /// its error estimate
    pub abseps: Double,
    /// a thousandth of the sum of the error estimates
    pub small: Double,
    /// the tolerance at the magnitude of `reseps`
    pub ertest: Double,
}

/// Whether the integration goes on with the next bisection.
#[derive(Clone, Copy, Debug, PartialEq, Eq)]
pub enum Turn {
    GoOn,
    Stop,
}

/// The cursors of a workspace: the position in its order, and the record
/// there.
pub open spec fn cursors(ws: WorkSpace) -> (usize, usize) {
    (ws.nrmax, ws.i)
}

/// Whether `after` is the workspace `ws` with its cursors at `at`.
pub open spec fn moved(ws: WorkSpace, at: (usize, usize), after: WorkSpace) -> bool {
    &&& after.subranges == ws.subranges
    &&& after.order == ws.order
    &&& after.maximum_level == ws.maximum_level
    &&& cursors(after) == at
}

/// The position from which the larger subranges are sought: the second
/// where the search begins, and the cursor where it is under way.
pub open spec fn search_from(st: Search, ws: WorkSpace) -> usize {
    if st.extrapolate {
        ws.nrmax
    } else {
        1
    }
}

/// The position of the next of the larger subranges of `ws`, from
/// `search_from` on; the number of records where there is none.
pub open spec fn sought(st: Search, ws: WorkSpace) -> int {
    WorkSpace::next_shallow(ws.subranges@, ws.order@, ws.maximum_level, search_from(st, ws) as int)
}

/// The cursors on the next of the larger subranges.
pub open spec fn cursors_found(st: Search, ws: WorkSpace) -> (usize, usize) {
    (sought(st, ws) as usize, ws.order@[sought(st, ws)])
}

/// The cursors where none of the larger subranges was bisected: past the
/// last record after a search, and at the position where the search would
/// have begun otherwise.
pub open spec fn cursors_left(st: Search, ws: WorkSpace, searched: bool) -> (usize, usize) {
    if searched {
        (
            sought(st, ws) as usize,
            if search_from(st, ws) < ws.order@.len() {
                ws.order@[ws.order@.len() - 1]
            } else {
                ws.i
            },
        )
    } else {
        (search_from(st, ws), ws.i)
    }
}

/// The cursors on the record with the largest error estimate.
pub open spec fn cursors_reset(ws: WorkSpace) -> (usize, usize) {
    (0, ws.order@[0])
}

/// The error over the larger subranges after the bisection of a record of
/// which the halves lie at `level`: the sum of the error estimates over the
/// halves is added where they are larger than the smallest subranges.
pub open spec fn large_error(ws: WorkSpace, level: usize, t: Trail) -> Double {
    if level < ws.maximum_level {
        t.enlarged
    } else {
        t.lessened
    }
}

/// Whether the next bisection is that of a subrange larger than the smallest
/// while none of the smallest is being bisected for an extrapolation.
pub open spec fn bisects_larger(st: Search, ws: WorkSpace) -> bool {
    !st.extrapolate && ws.subranges@[ws.i as int].level < ws.maximum_level
}

/// What is carried on after an extrapolation, before it is known whether the
/// integration goes on: the table, the limit and its error estimate;
/// `RoundoffError` where more than five extrapolations have not improved on
/// an error estimate below a thousandth of the sum of the error estimates;
/// and the new best limit where its error estimate is the smaller.
pub open spec fn limit_taken(st: Search, t: Trail) -> Search {
    let better = t.abseps.lt(st.err_ext);
    Search {
        extrapolate: true,
        table: t.extrapolated,
        reseps: t.reseps,
        abseps: t.abseps,
        ktmin: if better {
            0
        } else {
            (st.ktmin + 1) as usize
        },
        error: if st.ktmin + 1 > 5 && st.err_ext.lt(t.small) {
            Some(RuntimeError::RoundoffError)
        } else {
            st.error
        },
        err_ext: if better {
            t.abseps
        } else {
            st.err_ext
        },
        res_ext: if better {
            t.reseps
        } else {
            st.res_ext
        },
        correc: if better {
            st.error_over_large_ranges
        } else {
            st.correc
        },
        ertest: if better {
            t.ertest
        } else {
            st.ertest
        },
        ..st
    }
}

/// Whether the extrapolation has found a limit within the tolerance.
pub open spec fn settled(st: Search, t: Trail) -> bool {
    t.abseps.lt(st.err_ext) && t.abseps.le(t.ertest)
}

/// What follows an extrapolation from the state `st` and the workspace `ws`:
/// the integration stops where the limit is within the tolerance, or an
/// error is set; otherwise it goes on from the record with the largest error
/// estimate. Extrapolation is given up where the table has shrunk to one
/// element.
pub open spec fn after_extrapolation(st: Search, ws: WorkSpace, t: Trail) -> (
    Search,
    Turn,
    (usize, usize),
) {
    let base = limit_taken(st, t);
    let given_up = Search {
        disallow_extrapolation: st.disallow_extrapolation || t.extrapolated.n == 1,
        ..base
    };
    if settled(st, t) {
        (base, Turn::Stop, cursors(ws))
    } else if base.error.is_some() {
        (given_up, Turn::Stop, cursors(ws))
    } else {
        (
            Search { extrapolate: false, error_over_large_ranges: st.errsum, ..given_up },
            Turn::GoOn,
            cursors_reset(ws),
        )
    }
}

/// Whether `t` holds what an extrapolation from the table of `st` may give
/// in the arithmetic `fl`: the limit and its error estimate; the thousandth
/// of the sum of the error estimates where more than five extrapolations
/// have not improved the limit; and the tolerance at the new limit where
/// its error estimate is the smaller.
pub open spec fn limit_trail<A: Float>(
    fl: &A,
    st: Search,
    config: IntegrationConfig,
    t: Trail,
) -> bool {
    &&& st.table.extrapolated(fl, t.extrapolated, t.reseps, t.abseps)
    &&& st.ktmin + 1 > 5 ==> fl.is_product(Double::from_bits(BITS_0_001), st.errsum, t.small)
    &&& t.abseps.lt(st.err_ext) ==> config.tolerance.is_absolute(fl, t.reseps.abs(), t.ertest)
}

/// Extrapolates from the table of `st`, and decides what follows: see
/// `after_extrapolation`. The second part of the result is `t` with what the
/// extrapolation gave.
pub fn extrapolation<A: Float>(
    fl: &A,
    ws: &mut WorkSpace,
    st: &mut Search,
    config: &IntegrationConfig,
    t: Trail,
) -> (r: (Turn, Trail))
    requires
        old(ws).wf(),
        old(ws).order@.len() > 0,
        old(st).inv(),
        old(st).table.n >= 1,
        old(st).table.nres < old(st).bisections,
        old(st).ktmin < old(st).bisections,
        old(st).error.is_none(),
    ensures
        r.1.lessened == t.lessened,
        r.1.enlarged == t.enlarged,
        r.1.appended == t.appended,
        limit_trail(fl, *old(st), *config, r.1),
        (*final(st), r.0, cursors(*final(ws))) == after_extrapolation(*old(st), *old(ws), r.1),
        final(ws).subranges == old(ws).subranges,
        final(ws).order == old(ws).order,
        final(ws).maximum_level == old(ws).maximum_level,
        final(ws).wf(),
        final(st).inv(),
        final(st).bisections == old(st).bisections,
        final(st).nevals == old(st).nevals,
        r.0 == Turn::Stop && final(st).error.is_none() ==> config.tolerance.admits(
            final(st).err_ext,
        ) && config.tolerance.accepts(fl, final(st).err_ext) && !final(st).err_ext.num_eq(
            Double::from_bits(MAX_BITS),
        ),
        r.0 == Turn::Stop ==> final(st).error.is_none() || final(st).error == Some(
            RuntimeError::RoundoffError,
        ),
        r.0 == Turn::GoOn ==> final(st).error.is_none() && final(ws).wf() && final(ws).aligned(),
{
    let mut t = t;
    let mut reseps = st.reseps;
    let mut abseps = st.abseps;
    st.table.qelg(fl, &mut reseps, &mut abseps);
    st.reseps = reseps;
    st.abseps = abseps;
    st.extrapolate = true;
    t.extrapolated = st.table;
    t.reseps = reseps;
    t.abseps = abseps;
    st.ktmin += 1;
    if st.ktmin > 5 {
        t.small = fl.mul(Double::from_bits(BITS_0_001), st.errsum);
        if st.err_ext.lt(t.small) {
            st.error = Some(RuntimeError::RoundoffError);
        }
    }
    // an extrapolation with a smaller error estimate replaces the best
    // result

    if abseps.lt(st.err_ext) {
        st.ktmin = 0;
        st.err_ext = abseps;
        st.res_ext = reseps;
        st.correc = st.error_over_large_ranges;
        st.ertest = config.tolerance.to_abs(fl, reseps.abs());
        t.ertest = st.ertest;
        if st.err_ext.le(st.ertest) {
            proof {
                assert(config.tolerance.meets(fl, reseps.abs(), st.err_ext));
            }
            return (Turn::Stop, t);
        }
    }
    // Prepare bisection of the smallest range.

    if st.table.n == 1 {
        st.disallow_extrapolation = true;
    }
    if st.error.is_some() {
        return (Turn::Stop, t);
    }
    // work on range with largest error

    ws.reset_nrmax();
    st.extrapolate = false;
    st.error_over_large_ranges = st.errsum;
    (Turn::GoOn, t)
}

/// The state from which an extrapolation is made after a bisection: the
/// error over the larger subranges is brought up to date, the sum of the
/// estimates is in the table, and the smallest subranges are being bisected.
pub open spec fn before_limit(st: Search, ws: WorkSpace, level: usize, t: Trail) -> Search {
    Search {
        error_over_large_ranges: large_error(ws, level, t),
        extrapolate: true,
        table: t.appended,
        ..st
    }
}

/// The workspace `ws` with its cursors at `at`.
pub open spec fn with_cursors(ws: WorkSpace, at: (usize, usize)) -> WorkSpace {
    WorkSpace { nrmax: at.0, i: at.1, ..ws }
}

/// Whether, without singular points, the error over the larger subranges is
/// brought up to date after a bisection: not after an error, not after the
/// second bisection, and not once extrapolation is given up.
pub open spec fn weighs_s(st: Search) -> bool {
    st.error.is_none() && st.bisections != 2 && !st.disallow_extrapolation
}

/// Whether, without singular points, one of the larger subranges is bisected
/// next in preparation of an extrapolation.
pub open spec fn seeks_s(st: Search, ws: WorkSpace, level: usize, t: Trail) -> bool {
    large_error(ws, level, t).gt(st.ertest) && sought(st, ws) < ws.order@.len()
}

/// What follows, without singular points, a bisection whose halves were
/// kept, where `st` and `ws` are the state and the workspace after it, `h`
/// its sums and `level` the level of its halves:
///
/// 1. an error stops the integration;
/// 2. the second bisection sets up the extrapolation: the sum of the
///    estimates enters the table;
/// 3. once extrapolation is given up, the integration goes on;
/// 4. while a subrange larger than the smallest is next and no
///    extrapolation is prepared, the integration goes on;
/// 5. while the error over the larger subranges exceeds what it is held to
///    and one of them is left, that one is bisected next;
/// 6. otherwise the sum of the estimates enters the table and the limit is
///    extrapolated: see `after_extrapolation`.
pub open spec fn spec_turn_s(
    st: Search,
    ws: WorkSpace,
    h: Sums,
    level: usize,
    t: Trail,
) -> (Search, Turn, (usize, usize)) {
    let weighed = Search { error_over_large_ranges: large_error(ws, level, t), ..st };
    if st.error.is_some() {
        (st, Turn::Stop, cursors(ws))
    } else if st.bisections == 2 {
        (
            Search {
                error_over_large_ranges: st.errsum,
                ertest: h.tolerance,
                table: t.appended,
                ..st
            },
            Turn::GoOn,
            cursors(ws),
        )
    } else if st.disallow_extrapolation {
        (st, Turn::GoOn, cursors(ws))
    } else if bisects_larger(st, ws) {
        (weighed, Turn::GoOn, cursors(ws))
    } else if seeks_s(st, ws, level, t) {
        (Search { extrapolate: true, ..weighed }, Turn::GoOn, cursors_found(st, ws))
    } else {
        after_extrapolation(
            before_limit(st, ws, level, t),
            with_cursors(ws, cursors_left(st, ws, large_error(ws, level, t).gt(st.ertest))),
            t,
        )
    }
}

/// Whether `t` holds what the arithmetic `fl` and the epsilon algorithm may
/// give, without singular points, after a bisection whose halves were kept,
/// as far as `spec_turn_s` asks for it: the error over the larger subranges
/// less the error estimate `last` of the bisected subrange, and with that of
/// the halves added where they are larger than the smallest; the table with
/// the sum of the estimates appended; and what the extrapolation gives.
pub open spec fn trail_s<A: Float>(
    fl: &A,
    st: Search,
    ws: WorkSpace,
    h: Sums,
    last: Double,
    level: usize,
    config: IntegrationConfig,
    t: Trail,
) -> bool {
    &&& weighs_s(st) ==> {
        &&& fl.is_difference(st.error_over_large_ranges, last, t.lessened)
        &&& level < ws.maximum_level ==> fl.is_sum(t.lessened, h.error12, t.enlarged)
    }
    &&& st.error.is_none() && st.bisections == 2 ==> st.table.appended(st.area, t.appended)
    &&& weighs_s(st) && !bisects_larger(st, ws) && !seeks_s(st, ws, level, t) ==> {
        &&& st.table.appended(st.area, t.appended)
        &&& limit_trail(fl, before_limit(st, ws, level, t), config, t)
    }
}

/// Decides, without singular points, what follows a bisection whose halves
/// were kept, and prepares the next: see `spec_turn_s`. `h` holds the sums of
/// the bisection, `last` the error estimate of the bisected subrange, and
/// `level` the level of its halves. The second part of the result is what
/// the arithmetic and the epsilon algorithm gave on the way.
pub fn turn_s<A: Float>(
    fl: &A,
    ws: &mut WorkSpace,
    st: &mut Search,
    h: &Sums,
    last: Double,
    level: usize,
    config: &IntegrationConfig,
) -> (r: (Turn, Trail))
    requires
        old(ws).wf(),
        old(ws).aligned(),
        old(ws).subranges@.len() >= 2,
        old(st).inv(),
        old(st).table.nres < old(st).bisections,
        old(st).ktmin < old(st).bisections,
    ensures
        trail_s(fl, *old(st), *old(ws), *h, last, level, *config, r.1),
        (*final(st), r.0, cursors(*final(ws))) == spec_turn_s(*old(st), *old(ws), *h, level, r.1),
        final(ws).subranges == old(ws).subranges,
        final(ws).order == old(ws).order,
        final(ws).maximum_level == old(ws).maximum_level,
        final(ws).wf(),
        final(st).inv(),
        final(st).bisections == old(st).bisections,
        final(st).nevals == old(st).nevals,
        final(st).errsum == old(st).errsum,
        old(st).error.is_some() ==> final(st).error == old(st).error,
        old(st).error.is_none() ==> final(st).error.is_none() || final(st).error == Some(
            RuntimeError::RoundoffError,
        ),
        r.0 == Turn::Stop && final(st).error.is_none() ==> config.tolerance.admits(
            final(st).err_ext,
        ) && config.tolerance.accepts(fl, final(st).err_ext) && !final(st).err_ext.num_eq(
            Double::from_bits(MAX_BITS),
        ),
        r.0 == Turn::GoOn ==> final(st).error.is_none() && final(ws).wf() && final(ws).aligned(),
{
    let zero = Double::from_bits(0);
    let mut t = Trail {
        lessened: zero,
        enlarged: zero,
        appended: st.table,
        extrapolated: st.table,
        reseps: zero,
        abseps: zero,
        small: zero,
        ertest: zero,
    };
    if st.error.is_some() {
        return (Turn::Stop, t);
    }
    // the second bisection sets up the extrapolation

    if st.bisections == 2 {
        st.error_over_large_ranges = st.errsum;
        st.ertest = h.tolerance;
        st.table.append(st.area);
        t.appended = st.table;
        return (Turn::GoOn, t);
    }
    if st.disallow_extrapolation {
        return (Turn::GoOn, t);
    }
    t.lessened = fl.sub(st.error_over_large_ranges, last);
    st.error_over_large_ranges = t.lessened;

    if level < ws.maximum_level() {
        t.enlarged = fl.add(t.lessened, h.error12);
        st.error_over_large_ranges = t.enlarged;
    }
    if !st.extrapolate {
        // extrapolate only when the subrange to be bisected next is one of
        // the smallest
        if ws.get().level < ws.maximum_level() {
            return (Turn::GoOn, t);
        }
        st.extrapolate = true;
        ws.nrmax = 1;
    }
    // While the error over the larger subranges exceeds the tolerance, they
    // are bisected first.

    if st.error_over_large_ranges.gt(st.ertest) && ws.increase_nrmax() {
        return (Turn::GoOn, t);
    }
    // extrapolate the limit from the estimates so far

    st.table.append(st.area);
    t.appended = st.table;
    extrapolation(fl, ws, st, config, t)
}

/// Whether, with singular points, the error over the larger subranges is
/// brought up to date after a bisection: not after an error, not after the
/// last bisection that the budget allows, and not once extrapolation is
/// given up.
pub open spec fn weighs_p(st: Search, last_chance: bool) -> bool {
    st.error.is_none() && !last_chance && !st.disallow_extrapolation
}

/// Whether, with singular points, one of the larger subranges is bisected
/// next in preparation of an extrapolation.
pub open spec fn seeks_p(st: Search, ws: WorkSpace, level: usize, t: Trail) -> bool {
    !st.error2 && large_error(ws, level, t).gt(st.ertest) && sought(st, ws) < ws.order@.len()
}

/// Whether, with singular points, the larger subranges were searched in
/// vain.
pub open spec fn searched_p(st: Search, ws: WorkSpace, level: usize, t: Trail) -> bool {
    !st.error2 && large_error(ws, level, t).gt(st.ertest)
}

/// What follows, with singular points, a bisection whose halves were kept,
/// where `st` and `ws` are the state and the workspace after it and `level`
/// the level of its halves:
///
/// 1. an error stops the integration;
/// 2. so does the last bisection that the budget allows, with
///    `InsufficientIteration`;
/// 3. once extrapolation is given up, the integration goes on;
/// 4. while a subrange larger than the smallest is next and no
///    extrapolation is prepared, the integration goes on;
/// 5. while the extrapolated error estimate is not in doubt, the error over
///    the larger subranges exceeds what it is held to and one of them is
///    left, that one is bisected next;
/// 6. otherwise the sum of the estimates enters the table; with fewer than
///    three elements there the integration goes on from the record with the
///    largest error estimate;
/// 7. otherwise the limit is extrapolated: see `after_extrapolation`.
pub open spec fn spec_turn_p(
    st: Search,
    ws: WorkSpace,
    level: usize,
    last_chance: bool,
    t: Trail,
) -> (Search, Turn, (usize, usize)) {
    let weighed = Search { error_over_large_ranges: large_error(ws, level, t), ..st };
    if st.error.is_some() {
        (st, Turn::Stop, cursors(ws))
    } else if last_chance {
        (
            Search { error: Some(RuntimeError::InsufficientIteration), ..st },
            Turn::Stop,
            cursors(ws),
        )
    } else if st.disallow_extrapolation {
        (st, Turn::GoOn, cursors(ws))
    } else if bisects_larger(st, ws) {
        (weighed, Turn::GoOn, cursors(ws))
    } else if seeks_p(st, ws, level, t) {
        (Search { extrapolate: true, ..weighed }, Turn::GoOn, cursors_found(st, ws))
    } else if t.appended.n < 3 {
        (
            Search {
                error_over_large_ranges: st.errsum,
                extrapolate: false,
                table: t.appended,
                ..st
            },
            Turn::GoOn,
            cursors_reset(ws),
        )
    } else {
        after_extrapolation(
            before_limit(st, ws, level, t),
            with_cursors(ws, cursors_left(st, ws, searched_p(st, ws, level, t))),
            t,
        )
    }
}

/// Whether `t` holds what the arithmetic `fl` and the epsilon algorithm may
/// give, with singular points, after a bisection whose halves were kept, as
/// far as `spec_turn_p` asks for it: the error over the larger subranges
/// with the error estimate `last` of the bisected subrange taken off, and
/// with that of the halves added where they are larger than the smallest;
/// the table with the sum of the estimates appended; and what the
/// extrapolation gives.
pub open spec fn trail_p<A: Float>(
    fl: &A,
    st: Search,
    ws: WorkSpace,
    h: Sums,
    last: Double,
    level: usize,
    last_chance: bool,
    config: IntegrationConfig,
    t: Trail,
) -> bool {
    &&& weighs_p(st, last_chance) ==> {
        &&& fl.is_sum(st.error_over_large_ranges, last.neg(), t.lessened)
        &&& level < ws.maximum_level ==> fl.is_sum(t.lessened, h.error12, t.enlarged)
    }
    &&& weighs_p(st, last_chance) && !bisects_larger(st, ws) && !seeks_p(st, ws, level, t) ==> {
        &&& st.table.appended(st.area, t.appended)
        &&& t.appended.n >= 3 ==> limit_trail(fl, before_limit(st, ws, level, t), config, t)
    }
}

/// Decides, with singular points, what follows a bisection whose halves were
/// kept, and prepares the next: see `spec_turn_p`. `h` holds the sums of the
/// bisection, `last` the error estimate of the bisected subrange, `level`
/// the level of its halves, and `last_chance` says whether the budget allows
/// no further bisection. The second part of the result is what the
/// arithmetic and the epsilon algorithm gave on the way.
pub fn turn_p<A: Float>(
    fl: &A,
    ws: &mut WorkSpace,
    st: &mut Search,
    h: &Sums,
    last: Double,
    level: usize,
    last_chance: bool,
    config: &IntegrationConfig,
) -> (r: (Turn, Trail))
    requires
        old(ws).wf(),
        old(ws).aligned(),
        old(ws).subranges@.len() >= 2,
        old(st).inv(),
        old(st).table.nres < old(st).bisections,
        old(st).ktmin < old(st).bisections,
    ensures
        trail_p(fl, *old(st), *old(ws), *h, last, level, last_chance, *config, r.1),
        (*final(st), r.0, cursors(*final(ws))) == spec_turn_p(
            *old(st),
            *old(ws),
            level,
            last_chance,
            r.1,
        ),
        final(ws).subranges == old(ws).subranges,
        final(ws).order == old(ws).order,
        final(ws).maximum_level == old(ws).maximum_level,
        final(ws).wf(),
        final(st).inv(),
        final(st).bisections == old(st).bisections,
        final(st).nevals == old(st).nevals,
        final(st).errsum == old(st).errsum,
        old(st).error.is_some() ==> final(st).error == old(st).error,
        old(st).error.is_none() ==> final(st).error.is_none() || final(st).error == Some(
            RuntimeError::RoundoffError,
        ) || (last_chance && final(st).error == Some(RuntimeError::InsufficientIteration)),
        r.0 == Turn::Stop && final(st).error.is_none() ==> config.tolerance.admits(
            final(st).err_ext,
        ) && config.tolerance.accepts(fl, final(st).err_ext) && !final(st).err_ext.num_eq(
            Double::from_bits(MAX_BITS),
        ),
        r.0 == Turn::GoOn ==> final(st).error.is_none() && !last_chance && final(ws).wf()
            && final(ws).aligned(),
{
    let zero = Double::from_bits(0);
    let mut t = Trail {
        lessened: zero,
        enlarged: zero,
        appended: st.table,
        extrapolated: st.table,
        reseps: zero,
        abseps: zero,
        small: zero,
        ertest: zero,
    };
    if st.error.is_some() {
        return (Turn::Stop, t);
    }
    if last_chance {
        st.error = Some(RuntimeError::InsufficientIteration);
        return (Turn::Stop, t);
    }
    if st.disallow_extrapolation {
        return (Turn::GoOn, t);
    }
    t.lessened = fl.add(st.error_over_large_ranges, last.neg());
    st.error_over_large_ranges = t.lessened;

    if level < ws.maximum_level() {
        t.enlarged = fl.add(t.lessened, h.error12);
        st.error_over_large_ranges = t.enlarged;
    }
    if !st.extrapolate {
        // extrapolate only when the subrange to be bisected next is one of
        // the smallest
        if ws.get().level < ws.maximum_level() {
            return (Turn::GoOn, t);
        }
        st.extrapolate = true;
        ws.nrmax = 1;
    }
    // The smallest range has the largest error. Before bisecting, decrease
    // the sum of the errors over the larger ranges and perform
    // extrapolation.

    if !st.error2 && st.error_over_large_ranges.gt(st.ertest) && ws.increase_nrmax() {
        return (Turn::GoOn, t);
    }
    // Perform extrapolation

    st.table.append(st.area);
    t.appended = st.table;
    if st.table.n < 3 {
        ws.reset_nrmax();
        st.extrapolate = false;
        st.error_over_large_ranges = st.errsum;
        return (Turn::GoOn, t);
    }
    extrapolation(fl, ws, st, config, t)
}

/// A bisecting integration with extrapolation between two bisections: the
/// integrand, the workspace, and what is carried on.
pub struct Point<F> {
    pub f: F,
    pub ws: WorkSpace,
    pub st: Search,
}

/// What follows one bisection of an integration with extrapolation.
pub enum Step {
    /// An estimate over a half is a NaN: the integration ends.
    Nan,
    /// The sum of the error estimates meets the tolerance: the integration
    /// ends with this result.
    Done(IntegrationResult),
    /// The halves are kept, and the integration goes on or stops.
    Turned(Turn),
}

/// How the bisections are counted and bounded: without singular points from
/// one, and with them from the number of pieces on, up to the bisections
/// that the budget allows.
pub struct Course {
    /// whether the integration is one over pieces between singular points
    pub pieces: bool,
    /// the number of pieces
    pub nint: usize,
    /// the bisections that the budget allows
    pub allowed: usize,
}

/// The number under which the next bisection is counted for round-off.
pub open spec fn count_of(course: Course, st: Search) -> usize {
    if course.pieces {
        (course.nint + st.bisections) as usize
    } else {
        (st.bisections + 1) as usize
    }
}

/// Whether `t`, `next`, `turn` and `at` are what follows a bisection whose
/// halves were kept, from the state `st` and the workspace `ws` after it:
/// see `spec_turn_s` and `spec_turn_p`.
pub open spec fn turns<A: Float>(
    fl: &A,
    config: IntegrationConfig,
    course: Course,
    st: Search,
    ws: WorkSpace,
    h: Sums,
    last: Double,
    level: usize,
    t: Trail,
    next: Search,
    turn: Turn,
    at: (usize, usize),
) -> bool {
    if course.pieces {
        &&& trail_p(fl, st, ws, h, last, level, st.bisections >= course.allowed, config, t)
        &&& (next, turn, at) == spec_turn_p(st, ws, level, st.bisections >= course.allowed, t)
    } else {
        &&& trail_s(fl, st, ws, h, last, level, config, t)
        &&& (next, turn, at) == spec_turn_s(st, ws, h, level, t)
    }
}

/// Whether one bisection takes the integration from the point `a` to the
/// point `b`, with `out` to follow: the record under the cursor is bisected,
/// the 25-point rule is evaluated over the first half and then over the
/// second, and `spec_halved` decides on the two results, with the sums as
/// the arithmetic `fl` gives them. Where the halves are kept the workspace
/// is updated with their records, and the turn that follows moves its
/// cursors; otherwise the workspace stays.
#[verifier::opaque]
pub open spec fn searches<A: Float, F: Integrand>(
    fl: &A,
    config: IntegrationConfig,
    transform: bool,
    course: Course,
    a: Point<F>,
    out: Step,
    b: Point<F>,
) -> bool {
    exists|r1: Range, r2: Range, q1: QKResult, q2: QKResult, mid: F, h: Sums|
        #![trigger rule_gives(fl, a.f, r1, rule25(), transform, q1, mid), rule_gives(fl, mid, r2, rule25(), transform, q2, b.f), halving_sums(fl, a.ws.estimates(), a.st, a.ws.subranges@[a.ws.i as int], r1, r2, q1, q2, config, h)]
        {
            let info = a.ws.subranges@[a.ws.i as int];
            let count = count_of(course, a.st);
            &&& halves(fl, info.range, r1, r2)
            &&& rule_gives(fl, a.f, r1, rule25(), transform, q1, mid)
            &&& rule_gives(fl, mid, r2, rule25(), transform, q2, b.f)
            &&& halving_sums(fl, a.ws.estimates(), a.st, info, r1, r2, q1, q2, config, h)
            &&& match spec_halved(a.st, info, q1, q2, h, count) {
                Halved::Nan => out is Nan && b.st == a.st && b.ws == a.ws,
                Halved::Done(res) => out == Step::Done(res) && b.st == carried(
                    a.st,
                    info,
                    q1,
                    q2,
                    h,
                    count,
                ) && b.ws == a.ws,
                Halved::Kept => exists|kept: WorkSpace, t: Trail, turn: Turn|
                    #![trigger turns(fl, config, course, carried(a.st, info, q1, q2, h, count), kept, h, info.delta, (info.level + 1) as usize, t, b.st, turn, cursors(b.ws))]
                    {
                        &&& a.ws.updated(
                            half_record(info, r1, q1),
                            half_record(info, r2, q2),
                            kept,
                        )
                        &&& turns(
                            fl,
                            config,
                            course,
                            carried(a.st, info, q1, q2, h, count),
                            kept,
                            h,
                            info.delta,
                            (info.level + 1) as usize,
                            t,
                            b.st,
                            turn,
                            cursors(b.ws),
                        )
                        &&& moved(kept, cursors(b.ws), b.ws)
                        &&& out == Step::Turned(turn)
                    },
            }
        }
}

/// Whether the integration goes on after the bisection.
pub open spec fn proceeds(out: Step) -> bool {
    out == Step::Turned(Turn::GoOn)
}

/// Whether the bisections with the outcomes `outs` take the integration
/// through `points`, and none but the last ends it.
#[verifier::opaque]
pub open spec fn linked<A: Float, F: Integrand>(
    fl: &A,
    config: IntegrationConfig,
    transform: bool,
    course: Course,
    points: Seq<Point<F>>,
    outs: Seq<Step>,
) -> bool {
    &&& points.len() == outs.len() + 1
    &&& forall|k: int|
        0 <= k < outs.len() ==> searches(
            fl,
            config,
            transform,
            course,
            points[k],
            #[trigger] outs[k],
            points[k + 1],
        )
    &&& forall|k: int| 0 <= k < outs.len() - 1 ==> proceeds(#[trigger] outs[k])
}

/// One more bisection prolongs a chain none of whose bisections has ended
/// the integration.
pub proof fn lemma_linked<A: Float, F: Integrand>(
    fl: &A,
    config: IntegrationConfig,
    transform: bool,
    course: Course,
    points: Seq<Point<F>>,
    outs: Seq<Step>,
    out: Step,
    b: Point<F>,
)
    requires
        linked(fl, config, transform, course, points, outs),
        outs.len() > 0 ==> proceeds(outs.last()),
        searches(fl, config, transform, course, points.last(), out, b),
    ensures
        linked(fl, config, transform, course, points.push(b), outs.push(out)),
{
    reveal(linked);
    let longer = points.push(b);
    let more = outs.push(out);
    assert forall|k: int| 0 <= k < more.len() implies searches(
        fl,
        config,
        transform,
        course,
        longer[k],
        #[trigger] more[k],
        longer[k + 1],
    ) by {
        if k < outs.len() {
            assert(more[k] == outs[k]);
            assert(longer[k] == points[k] && longer[k + 1] == points[k + 1]);
        }
    }
    assert forall|k: int| 0 <= k < more.len() - 1 implies proceeds(#[trigger] more[k]) by {
        assert(more[k] == outs[k]);
    }
}

/// The number of evaluations and the error with which the integration ends
/// at the state `st` after the bisections with the outcomes `outs`, unless
/// the last of them has given the result: after a NaN, 50 evaluations more
/// and the error of a NaN; after a stop, the error that was met; and where
/// the budget allows no further bisection, `InsufficientIteration` unless
/// the turn after the last bisection has set it.
pub open spec fn ending(course: Course, st: Search, outs: Seq<Step>) -> (
    usize,
    Option<RuntimeError>,
) {
    if outs.len() > 0 && outs.last() is Nan {
        ((st.nevals + 50) as usize, Some(RuntimeError::NanValueEncountered))
    } else if course.pieces || (outs.len() > 0 && !proceeds(outs.last())) {
        (st.nevals, st.error)
    } else {
        (st.nevals, Some(RuntimeError::InsufficientIteration))
    }
}

/// Whether `res` is the result of an integration that ends at the point
/// `last` after the bisections with the outcomes `outs`. A bisection that
/// meets the tolerance gives the result. Otherwise the result is chosen
/// between the plain sum and the extrapolated limit, with the first estimate
/// `estimate0` and its integral of the magnitude `absvalue` for the test on
/// divergence: see `reconciles`. Where no bisection has stopped the
/// integration, the budget allows no further one.
pub open spec fn ends<A: Float, F: Integrand>(
    fl: &A,
    course: Course,
    estimate0: Double,
    absvalue: Double,
    last: Point<F>,
    outs: Seq<Step>,
    res: IntegrationResult,
) -> bool {
    if outs.len() > 0 && outs.last() is Done {
        outs.last() == Step::Done(res)
    } else {
        &&& outs.len() == 0 || proceeds(outs.last()) ==> outs.len() == course.allowed
        &&& reconciles(
            fl,
            last.ws.estimates(),
            last.st.res_ext,
            last.st.err_ext,
            last.st.correc,
            last.st.area,
            last.st.errsum,
            estimate0,
            absvalue,
            ending(course, last.st, outs).0,
            ending(course, last.st, outs).1,
            last.st.error2,
            res,
        )
    }
}

/// Whether `res`, `after` and `ws1` are what the bisections from the point
/// `start` on may give: a chain of bisections, no longer than the budget
/// allows, with the result that ends it.
pub open spec fn explores<A: Float, F: Integrand>(
    fl: &A,
    config: IntegrationConfig,
    transform: bool,
    course: Course,
    start: Point<F>,
    estimate0: Double,
    absvalue: Double,
    res: IntegrationResult,
    after: F,
    ws1: WorkSpace,
) -> bool {
    exists|points: Seq<Point<F>>, outs: Seq<Step>| #[trigger]
        linked(fl, config, transform, course, points, outs) && {
            &&& points.len() == outs.len() + 1
            &&& points[0] == start
            &&& outs.len() <= course.allowed
            &&& after == points.last().f
            &&& ws1 == points.last().ws
            &&& ends(fl, course, estimate0, absvalue, points.last(), outs, res)
        }
}

/// Where a bisecting integration with extrapolation begins: the sums are
/// `area` and `errsum`, the best limit is `area` with no error estimate
/// yet, the error over the larger subranges is `large` and is held to
/// `ertest`, and the table holds `area` alone.
pub open spec fn begun(
    st: Search,
    area: Double,
    errsum: Double,
    large: Double,
    ertest: Double,
    nevals: usize,
) -> bool {
    &&& st.area == area
    &&& st.errsum == errsum
    &&& st.res_ext == area
    &&& st.err_ext == Double::from_bits(MAX_BITS)
    &&& st.correc == Double::from_bits(0)
    &&& st.ertest == ertest
    &&& st.error_over_large_ranges == large
    &&& st.roundoff == (Roundoff { type1: 0, type2: 0, type3: 0 })
    &&& st.ktmin == 0
    &&& st.error.is_none()
    &&& !st.error2
    &&& !st.extrapolate
    &&& !st.disallow_extrapolation
    &&& st.table.n == 1
    &&& st.table.nres == 0
    &&& st.table.rlist2@[0] == area
    &&& st.nevals == nevals
    &&& st.bisections == 0
}

/// The state with which a bisecting integration with extrapolation begins:
/// see `begun`.
pub fn begin(area: Double, errsum: Double, large: Double, ertest: Double, nevals: usize) -> (st:
    Search)
    ensures
        begun(st, area, errsum, large, ertest, nevals),
        st.inv(),
{
    let zero = Double::from_bits(0);
    let mut table = ExtrapolationTable::default();
    table.append(area);
    Search {
        area,
        errsum,
        res_ext: area,
        err_ext: Double::from_bits(MAX_BITS),
        correc: zero,
        ertest,
        error_over_large_ranges: large,
        reseps: zero,
        abseps: zero,
        roundoff: Roundoff::new(),
        ktmin: 0,
        error: None,
        error2: false,
        extrapolate: false,
        disallow_extrapolation: false,
        table,
        nevals,
        bisections: 0,
    }
}

} // verus!
