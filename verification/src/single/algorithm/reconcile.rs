//! The end of an integration: which value is returned, and with which error.

use vstd::prelude::*;
use crate::common::{IntegrationResult, Solution, ValueWithError};
use crate::error::RuntimeError;
use crate::float::{is_total, Double, Float, BITS_0_01, HUNDRED_BITS, MAX_BITS};
use crate::single::util::{is_positivity_floor, test_positivity};
use crate::single::workspace::WorkSpace;

verus! {

/// The result of an integration, from its parts.
pub fn finish(
    estimate: Double,
    delta: Double,
    nevals: usize,
    error: Option<RuntimeError>,
) -> (r: IntegrationResult)
    ensures
        r == (ValueWithError { value: Solution { estimate, delta, nevals }, error }),
{
    ValueWithError { value: Solution { estimate, delta, nevals }, error }
}

/// Which value an integration with extrapolation returns.
#[derive(Clone, Copy, Debug, PartialEq, Eq, Structural)]
pub enum Choice {
    /// the sum of the estimates over the subranges, with the sum of their
    /// error estimates
    Plain,
    /// the extrapolated limit with its error estimate
    Extrapolated,
    /// the extrapolated limit, after the test on divergence
    Tested,
}

/// Which value an integration returns whose extrapolation has improved on the
/// plain sum, when it has met an error or doubts its extrapolated error
/// estimate. `ext_ratio` and `plain_ratio` are the error estimates relative to
/// the magnitudes of their values.
///
/// Where both values are nonzero, the plain sum is returned if the relative
/// error of the extrapolated limit is the larger. Otherwise it is returned if
/// the absolute error of the limit is the larger; failing that, the limit is
/// returned at once if the plain sum is zero. In every other case the limit
/// goes on to the test on divergence.
pub open spec fn spec_distrust(
    res_ext: Double,
    err_ext: Double,
    area: Double,
    errsum: Double,
    ext_ratio: Double,
    plain_ratio: Double,
) -> Choice {
    if res_ext.num_ne(Double::from_bits(0)) && area.num_ne(Double::from_bits(0)) {
        if ext_ratio.gt(plain_ratio) {
            Choice::Plain
        } else {
            Choice::Tested
        }
    } else if err_ext.gt(errsum) {
        Choice::Plain
    } else if area.num_eq(Double::from_bits(0)) {
        Choice::Extrapolated
    } else {
        Choice::Tested
    }
}

/// See `spec_distrust`.
#[verifier::when_used_as_spec(spec_distrust)]
pub fn distrust(
    res_ext: Double,
    err_ext: Double,
    area: Double,
    errsum: Double,
    ext_ratio: Double,
    plain_ratio: Double,
) -> (r: Choice)
    ensures
        r == spec_distrust(res_ext, err_ext, area, errsum, ext_ratio, plain_ratio),
{
    let zero = Double::from_bits(0);
    if res_ext.num_ne(zero) && area.num_ne(zero) {
        if ext_ratio.gt(plain_ratio) {
            Choice::Plain
        } else {
            Choice::Tested
        }
    } else if err_ext.gt(errsum) {
        Choice::Plain
    } else if area.num_eq(zero) {
        Choice::Extrapolated
    } else {
        Choice::Tested
    }
}

/// Whether the integral is taken to diverge: the extrapolated limit is less
/// than a hundredth of the plain sum or more than a hundred times it, or the
/// sum of the error estimates exceeds the magnitude of the plain sum.
pub open spec fn spec_diverges(ratio: Double, errsum: Double, area: Double) -> bool {
    ratio.lt(Double::from_bits(BITS_0_01)) || ratio.gt(Double::from_bits(HUNDRED_BITS))
        || errsum.gt(area.abs())
}

/// See `spec_diverges`.
#[verifier::when_used_as_spec(spec_diverges)]
pub fn diverges(ratio: Double, errsum: Double, area: Double) -> (r: bool)
    ensures
        r == spec_diverges(ratio, errsum, area),
{
    ratio.lt(Double::from_bits(BITS_0_01)) || ratio.gt(Double::from_bits(HUNDRED_BITS))
        || errsum.gt(area.abs())
}

/// What the arithmetic gave at the end of an integration with
/// extrapolation. A value that the end did not ask for is arbitrary.
pub struct Closing {
    /// the sum of the estimates of the records, added up anew
    pub total: Double,
    /// the extrapolated error estimate, with the error over the larger
    /// subranges added where it is in doubt
    pub widened: Double,
    /// `widened` over the magnitude of the extrapolated limit
    pub ext_ratio: Double,
    /// the sum of the error estimates over the magnitude of the plain sum
    pub plain_ratio: Double,
    /// whether the integrand is taken to keep its sign
    pub positive: bool,
    /// a hundredth of the integral of the magnitude
    pub small: Double,
    /// the extrapolated limit over the plain sum
    pub ratio: Double,
}

/// The result of an integration, from its parts.
pub open spec fn result_of(
    estimate: Double,
    delta: Double,
    nevals: usize,
    error: Option<RuntimeError>,
) -> IntegrationResult {
    ValueWithError { value: Solution { estimate, delta, nevals }, error }
}

/// Whether the extrapolated limit is distrusted: after an error, or with an
/// error estimate in doubt.
pub open spec fn distrusted(error: Option<RuntimeError>, doubtful: bool) -> bool {
    error.is_some() || doubtful
}

/// The error at the end: `RoundoffError` where the limit is distrusted and
/// no error was set before.
pub open spec fn flagged_at_end(error: Option<RuntimeError>, doubtful: bool) -> Option<
    RuntimeError,
> {
    if distrusted(error, doubtful) && error.is_none() {
        Some(RuntimeError::RoundoffError)
    } else {
        error
    }
}

/// Which value is returned where there is an extrapolated error estimate:
/// what `spec_distrust` chooses where the limit is distrusted, and the
/// tested limit otherwise.
pub open spec fn chosen(
    res_ext: Double,
    area: Double,
    errsum: Double,
    error: Option<RuntimeError>,
    doubtful: bool,
    c: Closing,
) -> Choice {
    if distrusted(error, doubtful) {
        spec_distrust(res_ext, c.widened, area, errsum, c.ext_ratio, c.plain_ratio)
    } else {
        Choice::Tested
    }
}

/// Whether the tested limit is returned without the test on divergence: the
/// integrand changes sign, and both values are below a hundredth of the
/// integral of its magnitude.
pub open spec fn negligible(res_ext: Double, area: Double, c: Closing) -> bool {
    !c.positive && res_ext.abs().max(area.abs()).lt(c.small)
}

/// The result at the end of an integration with extrapolation, given what
/// the arithmetic has made of its values:
///
/// * without an extrapolated error estimate, the plain sum with the error
///   so far;
/// * the plain sum or the limit as `chosen` says;
/// * a tested limit with `Divergent` where `spec_diverges` holds and no
///   error is set, unless it is `negligible`.
pub open spec fn spec_reconciled(
    res_ext: Double,
    err_ext: Double,
    area: Double,
    errsum: Double,
    nevals: usize,
    error: Option<RuntimeError>,
    doubtful: bool,
    c: Closing,
) -> IntegrationResult {
    let flagged = flagged_at_end(error, doubtful);
    if err_ext.num_eq(Double::from_bits(MAX_BITS)) {
        result_of(c.total, errsum, nevals, error)
    } else {
        match chosen(res_ext, area, errsum, error, doubtful, c) {
            Choice::Plain => result_of(c.total, errsum, nevals, flagged),
            Choice::Extrapolated => result_of(res_ext, c.widened, nevals, flagged),
            Choice::Tested => if !negligible(res_ext, area, c) && spec_diverges(
                c.ratio,
                errsum,
                area,
            ) && flagged.is_none() {
                result_of(res_ext, c.widened, nevals, Some(RuntimeError::Divergent))
            } else {
                result_of(res_ext, c.widened, nevals, flagged)
            },
        }
    }
}

/// Whether `positive` is what the test on the sign of the integrand may give
/// in the arithmetic `fl`.
pub open spec fn is_positivity<A: Float>(
    fl: &A,
    result: Double,
    resabs: Double,
    positive: bool,
) -> bool {
    exists|floor: Double| #[trigger]
        is_positivity_floor(fl, resabs, floor) && positive == floor.le(result.abs())
}

/// Whether `c` holds what the arithmetic `fl` may give at the end of an
/// integration with extrapolation, as far as the end asks for it: the sum of
/// the estimates where the plain sum is returned; the widened error
/// estimate; the two relative errors where the limit is distrusted and both
/// values are nonzero; and for a tested limit the test on the sign, the
/// hundredth of the integral of the magnitude and the ratio of the values.
pub open spec fn closing_sums<A: Float>(
    fl: &A,
    estimates: Seq<Double>,
    res_ext: Double,
    err_ext: Double,
    correc: Double,
    area: Double,
    errsum: Double,
    estimate0: Double,
    absvalue: Double,
    error: Option<RuntimeError>,
    doubtful: bool,
    c: Closing,
) -> bool {
    if err_ext.num_eq(Double::from_bits(MAX_BITS)) {
        is_total(fl, estimates, c.total)
    } else {
        &&& if distrusted(error, doubtful) && doubtful {
            fl.is_sum(err_ext, correc, c.widened)
        } else {
            c.widened == err_ext
        }
        &&& distrusted(error, doubtful) ==> if res_ext.num_ne(Double::from_bits(0))
            && area.num_ne(Double::from_bits(0)) {
            fl.is_quotient(c.widened, res_ext.abs(), c.ext_ratio) && fl.is_quotient(
                errsum,
                area.abs(),
                c.plain_ratio,
            )
        } else {
            c.ext_ratio == Double::from_bits(0) && c.plain_ratio == Double::from_bits(0)
        }
        &&& chosen(res_ext, area, errsum, error, doubtful, c) == Choice::Plain ==> is_total(
            fl,
            estimates,
            c.total,
        )
        &&& chosen(res_ext, area, errsum, error, doubtful, c) == Choice::Tested ==> {
            &&& is_positivity(fl, estimate0, absvalue, c.positive)
            &&& !c.positive ==> fl.is_product(Double::from_bits(BITS_0_01), absvalue, c.small)
            &&& !negligible(res_ext, area, c) ==> fl.is_quotient(res_ext, area, c.ratio)
        }
    }
}

/// Whether `res` is what the end of an integration with extrapolation may
/// give in the arithmetic `fl`: see `spec_reconciled` and `closing_sums`.
pub open spec fn reconciles<A: Float>(
    fl: &A,
    estimates: Seq<Double>,
    res_ext: Double,
    err_ext: Double,
    correc: Double,
    area: Double,
    errsum: Double,
    estimate0: Double,
    absvalue: Double,
    nevals: usize,
    error: Option<RuntimeError>,
    doubtful: bool,
    res: IntegrationResult,
) -> bool {
    exists|c: Closing|
        #![trigger closing_sums(fl, estimates, res_ext, err_ext, correc, area, errsum, estimate0, absvalue, error, doubtful, c)]
        closing_sums(
            fl,
            estimates,
            res_ext,
            err_ext,
            correc,
            area,
            errsum,
            estimate0,
            absvalue,
            error,
            doubtful,
            c,
        ) && res == spec_reconciled(res_ext, err_ext, area, errsum, nevals, error, doubtful, c)
}

/// The end of an integration with extrapolation: chooses between the plain
/// sum over the subranges and the extrapolated limit, and tests on
/// divergence.
///
/// * Without an extrapolated error estimate (`err_ext` is the largest finite
///   double) the plain sum is returned with the error so far.
/// * After an error, or with a `doubtful` extrapolated error estimate, the
///   error is `RoundoffError` unless it was set before, and `spec_distrust`
///   chooses.
/// * A limit that is tested is returned as it is where the integrand changes
///   sign and both values are below a hundredth of the integral of its
///   magnitude; otherwise `Divergent` is reported where `spec_diverges` holds
///   and no error was set before.
///
/// The number of evaluations is `nevals`. `Divergent` is reported only where no
/// error came in.
pub fn reconcile<A: Float>(
    fl: &A,
    ws: &WorkSpace,
    res_ext: Double,
    err_ext: Double,
    correc: Double,
    area: Double,
    errsum: Double,
    estimate0: Double,
    absvalue: Double,
    nevals: usize,
    error: Option<RuntimeError>,
    doubtful: bool,
) -> (res: IntegrationResult)
    ensures
        reconciles(
            fl,
            ws.estimates(),
            res_ext,
            err_ext,
            correc,
            area,
            errsum,
            estimate0,
            absvalue,
            nevals,
            error,
            doubtful,
            res,
        ),
        res.value.nevals == nevals,
        error.is_some() ==> res.error == error,
        error.is_none() ==> res.error.is_none() || res.error == Some(RuntimeError::RoundoffError)
            || res.error == Some(RuntimeError::Divergent),
        error.is_none() && !doubtful ==> res.error != Some(RuntimeError::RoundoffError),
        error.is_none() && doubtful && err_ext.num_ne(Double::from_bits(MAX_BITS)) ==> res.error
            == Some(RuntimeError::RoundoffError),
        err_ext.num_eq(Double::from_bits(MAX_BITS)) ==> res.error == error && res.value.delta
            == errsum,
        !err_ext.num_eq(Double::from_bits(MAX_BITS)) && error.is_none() && !doubtful
            ==> res.value.estimate == res_ext && res.value.delta == err_ext,
        !err_ext.num_eq(Double::from_bits(MAX_BITS)) && (error.is_some() || doubtful)
            ==> res.value.delta == errsum || (res.value.estimate == res_ext && (!doubtful
            ==> res.value.delta == err_ext)),
{
    let given = error;
    let first_ext = err_ext;
    let mut error = error;
    let mut err_ext = err_ext;
    let zero = Double::from_bits(0);
    let ghost mut c = Closing {
        total: zero,
        widened: err_ext,
        ext_ratio: zero,
        plain_ratio: zero,
        positive: false,
        small: zero,
        ratio: zero,
    };
    if err_ext.num_eq(Double::from_bits(MAX_BITS)) {
        let total = ws.sum_results(fl);
        proof {
            c.total = total;
            assert(closing_sums(
                fl,
                ws.estimates(),
                res_ext,
                first_ext,
                correc,
                area,
                errsum,
                estimate0,
                absvalue,
                given,
                doubtful,
                c,
            ));
        }
        return finish(total, errsum, nevals, error);
    }
    if error.is_some() || doubtful {
        if doubtful {
            err_ext = fl.add(err_ext, correc);
        }
        if error.is_none() {
            error = Some(RuntimeError::RoundoffError);
        }
        let both = res_ext.num_ne(zero) && area.num_ne(zero);
        let ext_ratio = if both {
            fl.div(err_ext, res_ext.abs())
        } else {
            zero
        };
        let plain_ratio = if both {
            fl.div(errsum, area.abs())
        } else {
            zero
        };
        proof {
            c.widened = err_ext;
            c.ext_ratio = ext_ratio;
            c.plain_ratio = plain_ratio;
        }
        match distrust(res_ext, err_ext, area, errsum, ext_ratio, plain_ratio) {
            Choice::Plain => {
                let total = ws.sum_results(fl);
                proof {
                    c.total = total;
                    assert(closing_sums(
                        fl,
                        ws.estimates(),
                        res_ext,
                        first_ext,
                        correc,
                        area,
                        errsum,
                        estimate0,
                        absvalue,
                        given,
                        doubtful,
                        c,
                    ));
                }
                return finish(total, errsum, nevals, error);
            },
            Choice::Extrapolated => {
                proof {
                    assert(closing_sums(
                        fl,
                        ws.estimates(),
                        res_ext,
                        first_ext,
                        correc,
                        area,
                        errsum,
                        estimate0,
                        absvalue,
                        given,
                        doubtful,
                        c,
                    ));
                }
                return finish(res_ext, err_ext, nevals, error);
            },
            Choice::Tested => {},
        }
    }
    //  Test on divergence.

    let positive_integrand = test_positivity(fl, estimate0, absvalue);
    proof {
        c.positive = positive_integrand;
        assert(is_positivity(fl, estimate0, absvalue, positive_integrand));
    }
    if !positive_integrand {
        let small = fl.mul(Double::from_bits(BITS_0_01), absvalue);
        proof {
            c.small = small;
        }
        if res_ext.abs().max(area.abs()).lt(small) {
            proof {
                assert(closing_sums(
                    fl,
                    ws.estimates(),
                    res_ext,
                    first_ext,
                    correc,
                    area,
                    errsum,
                    estimate0,
                    absvalue,
                    given,
                    doubtful,
                    c,
                ));
            }
            return finish(res_ext, err_ext, nevals, error);
        }
    }
    let ratio = fl.div(res_ext, area);
    proof {
        c.ratio = ratio;
        assert(closing_sums(
            fl,
            ws.estimates(),
            res_ext,
            first_ext,
            correc,
            area,
            errsum,
            estimate0,
            absvalue,
            given,
            doubtful,
            c,
        ));
    }
    if diverges(ratio, errsum, area) && error.is_none() {
        error = Some(RuntimeError::Divergent);
    }
    finish(res_ext, err_ext, nevals, error)
}

} // verus!
