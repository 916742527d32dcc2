//! Gauss-Kronrod rules: one evaluation of a fixed rule over one finite range.

use vstd::prelude::*;
use crate::float::{Double, Float, FIFTY_EPSILON_BITS, HALF_BITS, NEGLIGIBLE_ABS_BITS};
use crate::single::common::{Integrand, Range};
use crate::single::util::{
    are_candidates,
    evaluate,
    evaluated_at,
    is_rescaled,
    lemma_rescaled_floor,
    rescale_error,
    spec_rescaled,
};

verus! {

/// Holds the result of Gauss-Kronrod integration
#[derive(Clone, Copy, Debug, PartialEq, Eq)]
pub struct QKResult {
    /// approximation to the integral
    pub estimate: Double,
    /// estimate of the modulus of the absolute error
    pub delta: Double,
    /// approximation to the integral of |f|
    pub absvalue: Double,
    /// approximation to the integral of |f - quad(f)/(b - a)|
    pub asc: Double,
}

impl QKResult {
    /// Whether the error estimate is what the arithmetic `fl` may make of
    /// some difference of sums, with this deviation from the mean and this
    /// integral of the magnitude: see `is_rescaled`.
    pub open spec fn rescaled<A: Float>(self, fl: &A) -> bool {
        exists|err: Double| #[trigger] is_rescaled(fl, err, self.absvalue, self.asc, self.delta)
    }

    pub open spec fn spec_zero() -> QKResult {
        QKResult {
            estimate: Double::from_bits(0),
            delta: Double::from_bits(0),
            absvalue: Double::from_bits(0),
            asc: Double::from_bits(0),
        }
    }

    /// All four parts zero.
    #[verifier::when_used_as_spec(spec_zero)]
    pub fn zero() -> (r: QKResult)
        ensures
            r == QKResult::spec_zero(),
    {
        QKResult {
            estimate: Double::from_bits(0),
            delta: Double::from_bits(0),
            absvalue: Double::from_bits(0),
            asc: Double::from_bits(0),
        }
    }

    /// Whether each part of `sum` is a sum that the arithmetic `fl` gives for
    /// that part of this result and of `other`.
    pub open spec fn sums_with<A: Float>(self, fl: &A, other: QKResult, sum: QKResult) -> bool {
        &&& fl.is_sum(self.estimate, other.estimate, sum.estimate)
        &&& fl.is_sum(self.delta, other.delta, sum.delta)
        &&& fl.is_sum(self.absvalue, other.absvalue, sum.absvalue)
        &&& fl.is_sum(self.asc, other.asc, sum.asc)
    }

    /// Whether `partial` holds the running sums of `terms` in the arithmetic
    /// `fl`: it starts at zero, and each further entry is a sum of the entry
    /// before it and the next term.
    pub open spec fn running<A: Float>(
        fl: &A,
        terms: Seq<QKResult>,
        partial: Seq<QKResult>,
    ) -> bool {
        &&& partial.len() == terms.len() + 1
        &&& partial[0] == QKResult::zero()
        &&& forall|k: int|
            0 <= k < terms.len() ==> partial[k].sums_with(fl, #[trigger] terms[k], partial[k + 1])
    }

    /// Whether `total` is what the arithmetic `fl` may give when the terms
    /// are added to zero one by one, from the first to the last.
    pub open spec fn totals<A: Float>(fl: &A, terms: Seq<QKResult>, total: QKResult) -> bool {
        exists|partial: Seq<QKResult>| #[trigger]
            QKResult::running(fl, terms, partial) && partial.last() == total
    }

    /// Whether the error estimate is merely the deviation from the mean, and
    /// not zero.
    pub open spec fn rough(self) -> bool {
        self.delta.num_eq(self.asc) && self.delta.num_ne(Double::from_bits(0))
    }

    /// Where the integral of the magnitude is not negligible, the error
    /// estimate of a rule is at least fifty machine epsilons of it, as the
    /// arithmetic `fl` gives that product, unless the product or the error
    /// estimate is a NaN.
    pub proof fn lemma_delta_floor<A: Float>(self, fl: &A)
        requires
            self.rescaled(fl),
            self.absvalue.gt(Double::from_bits(NEGLIGIBLE_ABS_BITS)),
        ensures
            exists|floor: Double| #[trigger]
                fl.is_product(Double::from_bits(FIFTY_EPSILON_BITS), self.absvalue, floor) && (
                !floor.is_nan() && !self.delta.is_nan() ==> floor.le(self.delta)),
    {
        let err = choose|err: Double| #[trigger]
            is_rescaled(fl, err, self.absvalue, self.asc, self.delta);
        let (scaled, reduced, floor) = choose|scaled: Double, reduced: Double, floor: Double|
            #![trigger are_candidates(fl, err.abs(), self.absvalue, self.asc, scaled, reduced, floor)]
            {
                &&& are_candidates(fl, err.abs(), self.absvalue, self.asc, scaled, reduced, floor)
                &&& self.delta == spec_rescaled(
                    err.abs(),
                    scaled,
                    reduced,
                    self.asc,
                    self.absvalue,
                    floor,
                )
            };
        if !floor.is_nan() && !self.delta.is_nan() {
            lemma_rescaled_floor(err.abs(), scaled, reduced, self.asc, self.absvalue, floor);
        }
        assert(fl.is_product(Double::from_bits(FIFTY_EPSILON_BITS), self.absvalue, floor));
    }

    /// The sum of two results, part by part.
    pub fn add<A: Float>(self, fl: &A, other: &QKResult) -> (r: QKResult)
        ensures
            self.sums_with(fl, *other, r),
    {
        QKResult {
            estimate: fl.add(self.estimate, other.estimate),
            delta: fl.add(self.delta, other.delta),
            absvalue: fl.add(self.absvalue, other.absvalue),
            asc: fl.add(self.asc, other.asc),
        }
    }

    /// Adds `other` to this result, part by part.
    pub fn add_assign<A: Float>(&mut self, fl: &A, other: &QKResult)
        ensures
            old(self).sums_with(fl, *other, *final(self)),
    {
        self.estimate = fl.add(self.estimate, other.estimate);
        self.delta = fl.add(self.delta, other.delta);
        self.absvalue = fl.add(self.absvalue, other.absvalue);
        self.asc = fl.add(self.asc, other.asc);
    }
}

/// A Gauss-Kronrod rule, its numbers as bit patterns.
pub struct Rule {
    /// abscissae of the Gauss-Kronrod rule
    pub xgk: Seq<u64>,
    /// weights of the Gauss rule, one for every second abscissa
    pub wg: Seq<u64>,
    /// weights of the Kronrod rule
    pub wgk: Seq<u64>,
    /// Kronrod weight of the center point
    pub wck: u64,
}

/// Whether `c` is what the arithmetic `fl` may give for the center of
/// `range`: one half times a sum of the two ends.
pub open spec fn is_center<A: Float>(fl: &A, range: Range, c: Double) -> bool {
    exists|s: Double| #[trigger]
        fl.is_sum(range.begin, range.end, s) && fl.is_product(Double::from_bits(HALF_BITS), s, c)
}

/// Whether `h` is what the arithmetic `fl` may give for half the length of
/// `range`: one half times a difference of the end and the beginning.
pub open spec fn is_half_length<A: Float>(fl: &A, range: Range, h: Double) -> bool {
    exists|d: Double| #[trigger]
        fl.is_difference(range.end, range.begin, d) && fl.is_product(
            Double::from_bits(HALF_BITS),
            d,
            h,
        )
}

/// Whether `below` and `above` are the two points at the abscissa `x`: the
/// center less, and the center plus, a product of half the length and `x`.
pub open spec fn is_pair<A: Float>(
    fl: &A,
    center: Double,
    half_length: Double,
    x: u64,
    below: Double,
    above: Double,
) -> bool {
    exists|a: Double| #[trigger]
        fl.is_product(half_length, Double::from_bits(x), a) && fl.is_difference(center, a, below)
            && fl.is_sum(center, a, above)
}

/// Whether `xs` are the points of the rule: for each abscissa the point
/// below the center and, that many places on, the point above it, and last
/// the center.
pub open spec fn placed<A: Float>(
    fl: &A,
    center: Double,
    half_length: Double,
    xgk: Seq<u64>,
    xs: Seq<Double>,
) -> bool {
    &&& xs.len() == 2 * xgk.len() + 1
    &&& xs[2 * xgk.len() as int] == center
    &&& forall|j: int|
        0 <= j < xgk.len() ==> is_pair(
            fl,
            center,
            half_length,
            #[trigger] xgk[j],
            xs[j],
            xs[j + xgk.len() as int],
        )
}

/// Whether `next` is what the arithmetic `fl` may give for `acc` plus `w`
/// times the sum of `a` and `b`.
pub open spec fn accumulates<A: Float>(
    fl: &A,
    acc: Double,
    w: u64,
    a: Double,
    b: Double,
    next: Double,
) -> bool {
    exists|s: Double, p: Double|
        #![trigger fl.is_sum(a, b, s), fl.is_sum(acc, p, next)]
        fl.is_sum(a, b, s) && fl.is_product(Double::from_bits(w), s, p) && fl.is_sum(acc, p, next)
}

/// Whether `d` is the magnitude of a difference that the arithmetic `fl`
/// gives for `y` and `mean`.
pub open spec fn deviates<A: Float>(fl: &A, y: Double, mean: Double, d: Double) -> bool {
    exists|t: Double| #[trigger] fl.is_difference(y, mean, t) && d == t.abs()
}

/// Whether `next` is what the arithmetic `fl` may give for `acc` plus `w`
/// times the sum of the deviations of `y1` and of `y2` from `mean`.
pub open spec fn accumulates_deviation<A: Float>(
    fl: &A,
    acc: Double,
    w: u64,
    y1: Double,
    y2: Double,
    mean: Double,
    next: Double,
) -> bool {
    exists|below: Double, above: Double|
        #![trigger deviates(fl, y1, mean, below), deviates(fl, y2, mean, above)]
        deviates(fl, y1, mean, below) && deviates(fl, y2, mean, above) && accumulates(
            fl,
            acc,
            w,
            below,
            above,
            next,
        )
}

/// Whether `kron` holds the running Kronrod sums over the values `ys`: it
/// starts with the value at the center times its weight, and each abscissa
/// adds its weight times the sum of the two values there.
pub open spec fn kronrod_sums<A: Float>(
    fl: &A,
    rule: Rule,
    ys: Seq<Double>,
    kron: Seq<Double>,
) -> bool {
    let n = rule.wgk.len() as int;
    &&& kron.len() == n + 1
    &&& fl.is_product(ys[2 * n], Double::from_bits(rule.wck), kron[0])
    &&& forall|j: int|
        0 <= j < n ==> accumulates(fl, #[trigger] kron[j], rule.wgk[j], ys[j], ys[j + n], kron[j + 1])
}

/// Whether `mags` holds the running sums for the integral of the magnitude:
/// it starts with the magnitude of the first Kronrod sum, and each abscissa
/// adds its weight times the sum of the magnitudes of the two values there.
pub open spec fn magnitude_sums<A: Float>(
    fl: &A,
    rule: Rule,
    ys: Seq<Double>,
    first: Double,
    mags: Seq<Double>,
) -> bool {
    let n = rule.wgk.len() as int;
    &&& mags.len() == n + 1
    &&& mags[0] == first.abs()
    &&& forall|j: int|
        0 <= j < n ==> accumulates(
            fl,
            #[trigger] mags[j],
            rule.wgk[j],
            ys[j].abs(),
            ys[j + n].abs(),
            mags[j + 1],
        )
}

/// Whether `gauss` holds the running Gauss sums: it starts at zero, and
/// every second abscissa, from the first, adds its Gauss weight times the sum
/// of the two values there.
pub open spec fn gauss_sums<A: Float>(
    fl: &A,
    rule: Rule,
    ys: Seq<Double>,
    gauss: Seq<Double>,
) -> bool {
    let n = rule.wgk.len() as int;
    &&& gauss.len() == n + 1
    &&& gauss[0] == Double::from_bits(0)
    &&& forall|j: int|
        0 <= j < n ==> if j % 2 == 0 {
            accumulates(fl, #[trigger] gauss[j], rule.wg[j / 2], ys[j], ys[j + n], gauss[j + 1])
        } else {
            gauss[j + 1] == gauss[j]
        }
}

/// Whether `devs` holds the running sums for the deviation from `mean`: it
/// starts with the weight of the center times the deviation of the value
/// there, and each abscissa adds its weight times the sum of the deviations
/// of the two values there.
pub open spec fn deviation_sums<A: Float>(
    fl: &A,
    rule: Rule,
    ys: Seq<Double>,
    mean: Double,
    devs: Seq<Double>,
) -> bool {
    let n = rule.wgk.len() as int;
    &&& devs.len() == n + 1
    &&& exists|d: Double| #[trigger]
        deviates(fl, ys[2 * n], mean, d) && fl.is_product(Double::from_bits(rule.wck), d, devs[0])
    &&& forall|j: int|
        0 <= j < n ==> accumulates_deviation(
            fl,
            #[trigger] devs[j],
            rule.wgk[j],
            ys[j],
            ys[j + n],
            mean,
            devs[j + 1],
        )
}

/// Whether `err` is what the arithmetic `fl` may give for the difference of
/// the Kronrod sum `k` and the Gauss sum `g`, times half the length.
pub open spec fn is_rule_error<A: Float>(
    fl: &A,
    k: Double,
    g: Double,
    half_length: Double,
    err: Double,
) -> bool {
    exists|d: Double| #[trigger] fl.is_difference(k, g, d) && fl.is_product(d, half_length, err)
}

/// Whether `q` is what the rule makes, in the arithmetic `fl`, of the values
/// `ys` of the integrand at its points over a range of half the length
/// `half_length`:
///
/// * the estimate is the Kronrod sum times half the length;
/// * the integral of the magnitude and the deviation from the mean, which
///   is half the Kronrod sum, are their sums times the magnitude of half the
///   length;
/// * the error estimate is rescaled from the difference of the Kronrod and
///   the Gauss sum, times half the length.
pub open spec fn rule_sums<A: Float>(
    fl: &A,
    rule: Rule,
    half_length: Double,
    ys: Seq<Double>,
    q: QKResult,
) -> bool {
    exists|kron: Seq<Double>, mags: Seq<Double>, gauss: Seq<Double>, devs: Seq<Double>, mean: Double, err: Double|
        #![trigger kronrod_sums(fl, rule, ys, kron), magnitude_sums(fl, rule, ys, kron[0], mags), gauss_sums(fl, rule, ys, gauss), deviation_sums(fl, rule, ys, mean, devs), is_rule_error(fl, kron.last(), gauss.last(), half_length, err)]
        {
            &&& kronrod_sums(fl, rule, ys, kron)
            &&& magnitude_sums(fl, rule, ys, kron[0], mags)
            &&& gauss_sums(fl, rule, ys, gauss)
            &&& fl.is_product(kron.last(), Double::from_bits(HALF_BITS), mean)
            &&& deviation_sums(fl, rule, ys, mean, devs)
            &&& is_rule_error(fl, kron.last(), gauss.last(), half_length, err)
            &&& fl.is_product(kron.last(), half_length, q.estimate)
            &&& fl.is_product(mags.last(), half_length.abs(), q.absvalue)
            &&& fl.is_product(devs.last(), half_length.abs(), q.asc)
            &&& is_rescaled(fl, err, q.absvalue, q.asc, q.delta)
        }
}

/// Whether one evaluation of the rule over `range`, made of the integrand
/// `before`, may give `q` and leave the integrand as `after`: the integrand
/// is evaluated once at the points of the rule, first those below the
/// center, then those above it, each from the center outwards, and last at
/// the center; `q` is what the rule makes of its values. With `transform`
/// the integrand is taken through the substitution for an infinite range.
#[verifier::opaque]
pub open spec fn rule_gives<A: Float, F: Integrand>(
    fl: &A,
    before: F,
    range: Range,
    rule: Rule,
    transform: bool,
    q: QKResult,
    after: F,
) -> bool {
    exists|center: Double, half_length: Double, xs: Seq<Double>, ys: Seq<Double>|
        #![trigger placed(fl, center, half_length, rule.xgk, xs), evaluated_at(fl, before, transform, xs, ys, after)]
        {
            &&& is_center(fl, range, center)
            &&& is_half_length(fl, range, half_length)
            &&& placed(fl, center, half_length, rule.xgk, xs)
            &&& evaluated_at(fl, before, transform, xs, ys, after)
            &&& rule_sums(fl, rule, half_length, ys, q)
        }
}

/// Performs Gauss-Kronrod integration with custom points.
///
/// * `xgk`: abscissae of the Gauss-Kronrod rule
/// * `wg`: weights of the Gauss rule, one for every second abscissa
/// * `wgk`: weights of the Kronrod rule
/// * `wck`: Kronrod weight of the center point
///
/// The integrand is asked for its values in one batch: first at the points
/// below the center, then at those above it, each from the center outwards,
/// and last at the center. With `transform` set, the integrand is taken
/// through the substitution that maps the range from -1 to 1 onto the whole
/// line.
pub fn qk<A: Float, F: Integrand>(
    fl: &A,
    f: &mut F,
    range: &Range,
    xgk: &[u64],
    wg: &[u64],
    wgk: &[u64],
    wck: u64,
    transform: bool,
) -> (r: QKResult)
    requires
        old(f).inv(),
        xgk@.len() == wgk@.len(),
        xgk@.len() <= 2 * wg@.len(),
        2 * xgk@.len() < usize::MAX,
    ensures
        final(f).inv(),
        rule_gives(
            fl,
            *old(f),
            *range,
            (Rule { xgk: xgk@, wg: wg@, wgk: wgk@, wck }),
            transform,
            r,
            *final(f),
        ),
        r.rescaled(fl),
{
    let ghost rule = Rule { xgk: xgk@, wg: wg@, wgk: wgk@, wck };
    let n = xgk.len();
    let half = Double::from_bits(HALF_BITS);
    let weight = Double::from_bits(wck);
    let sum = fl.add(range.begin, range.end);
    let center = fl.mul(half, sum);
    let span = fl.sub(range.end, range.begin);
    let half_length = fl.mul(half, span);
    let abs_half_length = half_length.abs();
    proof {
        assert(fl.is_sum(range.begin, range.end, sum));
        assert(is_center(fl, *range, center));
        assert(fl.is_difference(range.end, range.begin, span));
        assert(is_half_length(fl, *range, half_length));
    }

    let mut buf: Vec<Double> = Vec::with_capacity(2 * n + 1);
    let mut j: usize = 0;
    while j < 2 * n + 1
        invariant
            j <= 2 * n + 1,
            2 * n < usize::MAX,
            buf@.len() == j,
            forall|i: int| 0 <= i < j ==> buf@[i] == center,
        decreases 2 * n + 1 - j,
    {
        buf.push(center);
        j += 1;
    }
    j = 0;
    while j < n
        invariant
            j <= n,
            n == xgk@.len(),
            2 * n < usize::MAX,
            buf@.len() == 2 * n + 1,
            buf@[2 * n] == center,
            forall|i: int|
                0 <= i < j ==> is_pair(
                    fl,
                    center,
                    half_length,
                    #[trigger] xgk@[i],
                    buf@[i],
                    buf@[i + n],
                ),
        decreases n - j,
    {
        let ghost before = buf@;
        let abscissa = fl.mul(half_length, Double::from_bits(xgk[j]));
        buf[j] = fl.sub(center, abscissa);
        buf[j + n] = fl.add(center, abscissa);
        proof {
            assert(fl.is_product(half_length, Double::from_bits(xgk@[j as int]), abscissa));
            assert(is_pair(
                fl,
                center,
                half_length,
                xgk@[j as int],
                buf@[j as int],
                buf@[j + n],
            ));
            assert forall|i: int| 0 <= i < j implies is_pair(
                fl,
                center,
                half_length,
                #[trigger] xgk@[i],
                buf@[i],
                buf@[i + n],
            ) by {
                assert(buf@[i] == before[i]);
                assert(buf@[i + n] == before[i + n]);
            }
        }
        j += 1;
    }
    let ghost xs = buf@;
    assert(placed(fl, center, half_length, rule.xgk, xs));

    evaluate(fl, f, transform, &mut buf);
    let ghost ys = buf@;

    let f_center = buf[2 * n];
    let mut result_gauss = Double::from_bits(0);
    let mut result_kronrod = fl.mul(f_center, weight);
    let mut result_abs = result_kronrod.abs();
    let ghost mut kron: Seq<Double> = seq![result_kronrod];
    let ghost mut mags: Seq<Double> = seq![result_abs];
    let ghost mut gauss: Seq<Double> = seq![result_gauss];
    j = 0;
    while j < n
        invariant
            j <= n,
            n == xgk@.len(),
            n == wgk@.len(),
            n <= 2 * wg@.len(),
            2 * n < usize::MAX,
            buf@.len() == 2 * n + 1,
            buf@ == ys,
            rule == (Rule { xgk: xgk@, wg: wg@, wgk: wgk@, wck }),
            kron.len() == j + 1,
            mags.len() == j + 1,
            gauss.len() == j + 1,
            kron.last() == result_kronrod,
            mags.last() == result_abs,
            gauss.last() == result_gauss,
            fl.is_product(ys[2 * n], Double::from_bits(wck), kron[0]),
            mags[0] == kron[0].abs(),
            gauss[0] == Double::from_bits(0),
            forall|i: int|
                0 <= i < j ==> accumulates(
                    fl,
                    #[trigger] kron[i],
                    rule.wgk[i],
                    ys[i],
                    ys[i + n],
                    kron[i + 1],
                ),
            forall|i: int|
                0 <= i < j ==> accumulates(
                    fl,
                    #[trigger] mags[i],
                    rule.wgk[i],
                    ys[i].abs(),
                    ys[i + n].abs(),
                    mags[i + 1],
                ),
            forall|i: int|
                0 <= i < j ==> if i % 2 == 0 {
                    accumulates(
                        fl,
                        #[trigger] gauss[i],
                        rule.wg[i / 2],
                        ys[i],
                        ys[i + n],
                        gauss[i + 1],
                    )
                } else {
                    gauss[i + 1] == gauss[i]
                },
        decreases n - j,
    {
        let ghost kron0 = kron;
        let ghost mags0 = mags;
        let ghost gauss0 = gauss;
        let fval1 = buf[j];
        let fval2 = buf[j + n];
        let fsum = fl.add(fval1, fval2);
        let kterm = fl.mul(Double::from_bits(wgk[j]), fsum);
        let k_next = fl.add(result_kronrod, kterm);
        let asum = fl.add(fval1.abs(), fval2.abs());
        let aterm = fl.mul(Double::from_bits(wgk[j]), asum);
        let a_next = fl.add(result_abs, aterm);
        proof {
            assert(fl.is_sum(fval1, fval2, fsum) && fl.is_sum(result_kronrod, kterm, k_next));
            assert(accumulates(fl, result_kronrod, rule.wgk[j as int], fval1, fval2, k_next));
            assert(fl.is_sum(fval1.abs(), fval2.abs(), asum) && fl.is_sum(
                result_abs,
                aterm,
                a_next,
            ));
            assert(accumulates(
                fl,
                result_abs,
                rule.wgk[j as int],
                fval1.abs(),
                fval2.abs(),
                a_next,
            ));
        }
        let ghost g_before = result_gauss;
        if j % 2 == 0 {
            let gterm = fl.mul(Double::from_bits(wg[j / 2]), fsum);
            let g_next = fl.add(result_gauss, gterm);
            proof {
                assert(fl.is_sum(fval1, fval2, fsum) && fl.is_sum(result_gauss, gterm, g_next));
                assert(accumulates(
                    fl,
                    result_gauss,
                    rule.wg[j as int / 2],
                    fval1,
                    fval2,
                    g_next,
                ));
            }
            result_gauss = g_next;
        }
        result_kronrod = k_next;
        result_abs = a_next;
        proof {
            kron = kron.push(result_kronrod);
            mags = mags.push(result_abs);
            gauss = gauss.push(result_gauss);
            assert forall|i: int| 0 <= i < j + 1 implies accumulates(
                fl,
                #[trigger] kron[i],
                rule.wgk[i],
                ys[i],
                ys[i + n],
                kron[i + 1],
            ) by {
                if i < j {
                    assert(kron0[i] == kron[i] && kron0[i + 1] == kron[i + 1]);
                }
            }
            assert forall|i: int| 0 <= i < j + 1 implies accumulates(
                fl,
                #[trigger] mags[i],
                rule.wgk[i],
                ys[i].abs(),
                ys[i + n].abs(),
                mags[i + 1],
            ) by {
                if i < j {
                    assert(mags0[i] == mags[i] && mags0[i + 1] == mags[i + 1]);
                }
            }
            assert forall|i: int| 0 <= i < j + 1 implies if i % 2 == 0 {
                accumulates(
                    fl,
                    #[trigger] gauss[i],
                    rule.wg[i / 2],
                    ys[i],
                    ys[i + n],
                    gauss[i + 1],
                )
            } else {
                gauss[i + 1] == gauss[i]
            } by {
                if i < j {
                    assert(gauss0[i] == gauss[i] && gauss0[i + 1] == gauss[i + 1]);
                }
            }
        }
        j += 1;
    }
    assert(kronrod_sums(fl, rule, ys, kron));
    assert(magnitude_sums(fl, rule, ys, kron[0], mags));
    assert(gauss_sums(fl, rule, ys, gauss));

    let mean = fl.mul(result_kronrod, half);
    let centered = fl.sub(f_center, mean);
    let mut result_asc = fl.mul(weight, centered.abs());
    let ghost mut devs: Seq<Double> = seq![result_asc];
    let ghost first_dev = result_asc;
    proof {
        assert(fl.is_difference(f_center, mean, centered));
        assert(deviates(fl, ys[2 * n], mean, centered.abs()));
    }
    j = 0;
    while j < n
        invariant
            j <= n,
            n == wgk@.len(),
            2 * n < usize::MAX,
            buf@.len() == 2 * n + 1,
            buf@ == ys,
            rule == (Rule { xgk: xgk@, wg: wg@, wgk: wgk@, wck }),
            devs.len() == j + 1,
            devs.last() == result_asc,
            devs[0] == first_dev,
            forall|i: int|
                0 <= i < j ==> accumulates_deviation(
                    fl,
                    #[trigger] devs[i],
                    rule.wgk[i],
                    ys[i],
                    ys[i + n],
                    mean,
                    devs[i + 1],
                ),
        decreases n - j,
    {
        let ghost devs0 = devs;
        let t1 = fl.sub(buf[j], mean);
        let t2 = fl.sub(buf[j + n], mean);
        let below = t1.abs();
        let above = t2.abs();
        let dsum = fl.add(below, above);
        let dterm = fl.mul(Double::from_bits(wgk[j]), dsum);
        let d_next = fl.add(result_asc, dterm);
        proof {
            assert(fl.is_difference(ys[j as int], mean, t1));
            assert(deviates(fl, ys[j as int], mean, below));
            assert(fl.is_difference(ys[j + n], mean, t2));
            assert(deviates(fl, ys[j + n], mean, above));
            assert(fl.is_sum(below, above, dsum) && fl.is_sum(result_asc, dterm, d_next));
            assert(accumulates(fl, result_asc, rule.wgk[j as int], below, above, d_next));
            assert(accumulates_deviation(
                fl,
                result_asc,
                rule.wgk[j as int],
                ys[j as int],
                ys[j + n],
                mean,
                d_next,
            ));
        }
        result_asc = d_next;
        proof {
            devs = devs.push(result_asc);
            assert forall|i: int| 0 <= i < j + 1 implies accumulates_deviation(
                fl,
                #[trigger] devs[i],
                rule.wgk[i],
                ys[i],
                ys[i + n],
                mean,
                devs[i + 1],
            ) by {
                if i < j {
                    assert(devs0[i] == devs[i] && devs0[i + 1] == devs[i + 1]);
                }
            }
        }
        j += 1;
    }
    proof {
        assert(deviates(fl, ys[2 * n], mean, centered.abs()) && fl.is_product(
            Double::from_bits(rule.wck),
            centered.abs(),
            devs[0],
        ));
        assert(deviation_sums(fl, rule, ys, mean, devs));
    }

    let diff = fl.sub(result_kronrod, result_gauss);
    let err = fl.mul(diff, half_length);
    result_kronrod = fl.mul(result_kronrod, half_length);
    result_abs = fl.mul(result_abs, abs_half_length);
    result_asc = fl.mul(result_asc, abs_half_length);
    proof {
        assert(fl.is_difference(kron.last(), gauss.last(), diff));
        assert(is_rule_error(fl, kron.last(), gauss.last(), half_length, err));
    }

    let delta = rescale_error(fl, err, result_abs, result_asc);
    let result = QKResult { estimate: result_kronrod, delta, absvalue: result_abs, asc: result_asc };
    proof {
        assert(rule_sums(fl, rule, half_length, ys, result));
        assert(rule_gives(fl, *old(f), *range, rule, transform, result, *f)) by {
            reveal(rule_gives);
        }
        assert(result.rescaled(fl));
    }
    result
}

/// The 17-point rule.
pub open spec fn rule17() -> Rule {
    Rule { xgk: XGK17@, wg: WG17@, wgk: WGK17@, wck: WCK17 }
}

/// Performs Gauss-Kronrod integration with 17-point kronrod rule
pub fn qk17<A: Float, F: Integrand>(fl: &A, f: &mut F, r: &Range) -> (q: QKResult)
    requires
        old(f).inv(),
    ensures
        final(f).inv(),
        rule_gives(fl, *old(f), *r, rule17(), false, q, *final(f)),
        q.rescaled(fl),
{
    qk(fl, f, r, XGK17.as_slice(), WG17.as_slice(), WGK17.as_slice(), WCK17, false)
}

/// The 25-point rule.
pub open spec fn rule25() -> Rule {
    Rule { xgk: XGK25@, wg: WG25@, wgk: WGK25@, wck: WCK25 }
}

/// Performs Gauss-Kronrod integration with 25-point kronrod rule
pub fn qk25<A: Float, F: Integrand>(fl: &A, f: &mut F, r: &Range) -> (q: QKResult)
    requires
        old(f).inv(),
    ensures
        final(f).inv(),
        rule_gives(fl, *old(f), *r, rule25(), false, q, *final(f)),
        q.rescaled(fl),
{
    qk(fl, f, r, XGK25.as_slice(), WG25.as_slice(), WGK25.as_slice(), WCK25, false)
}

/// The 33-point rule.
pub open spec fn rule33() -> Rule {
    Rule { xgk: XGK33@, wg: WG33@, wgk: WGK33@, wck: WCK33 }
}

/// Performs Gauss-Kronrod integration with 33-point kronrod rule
pub fn qk33<A: Float, F: Integrand>(fl: &A, f: &mut F, r: &Range) -> (q: QKResult)
    requires
        old(f).inv(),
    ensures
        final(f).inv(),
        rule_gives(fl, *old(f), *r, rule33(), false, q, *final(f)),
        q.rescaled(fl),
{
    qk(fl, f, r, XGK33.as_slice(), WG33.as_slice(), WGK33.as_slice(), WCK33, false)
}

/// The 41-point rule.
pub open spec fn rule41() -> Rule {
    Rule { xgk: XGK41@, wg: WG41@, wgk: WGK41@, wck: WCK41 }
}

/// Performs Gauss-Kronrod integration with 41-point kronrod rule
pub fn qk41<A: Float, F: Integrand>(fl: &A, f: &mut F, r: &Range) -> (q: QKResult)
    requires
        old(f).inv(),
    ensures
        final(f).inv(),
        rule_gives(fl, *old(f), *r, rule41(), false, q, *final(f)),
        q.rescaled(fl),
{
    qk(fl, f, r, XGK41.as_slice(), WG41.as_slice(), WGK41.as_slice(), WCK41, false)
}

/// The 49-point rule.
pub open spec fn rule49() -> Rule {
    Rule { xgk: XGK49@, wg: WG49@, wgk: WGK49@, wck: WCK49 }
}

/// Performs Gauss-Kronrod integration with 49-point kronrod rule
pub fn qk49<A: Float, F: Integrand>(fl: &A, f: &mut F, r: &Range) -> (q: QKResult)
    requires
        old(f).inv(),
    ensures
        final(f).inv(),
        rule_gives(fl, *old(f), *r, rule49(), false, q, *final(f)),
        q.rescaled(fl),
{
    qk(fl, f, r, XGK49.as_slice(), WG49.as_slice(), WGK49.as_slice(), WCK49, false)
}

/// The 57-point rule.
pub open spec fn rule57() -> Rule {
    Rule { xgk: XGK57@, wg: WG57@, wgk: WGK57@, wck: WCK57 }
}

/// Performs Gauss-Kronrod integration with 57-point kronrod rule
pub fn qk57<A: Float, F: Integrand>(fl: &A, f: &mut F, r: &Range) -> (q: QKResult)
    requires
        old(f).inv(),
    ensures
        final(f).inv(),
        rule_gives(fl, *old(f), *r, rule57(), false, q, *final(f)),
        q.rescaled(fl),
{
    qk(fl, f, r, XGK57.as_slice(), WG57.as_slice(), WGK57.as_slice(), WCK57, false)
}

/// The 17-point rule, through the substitution for an infinite range where
/// `transform` is set.
pub fn qk17_mapped<A: Float, F: Integrand>(
    fl: &A,
    f: &mut F,
    r: &Range,
    transform: bool,
) -> (q: QKResult)
    requires
        old(f).inv(),
    ensures
        final(f).inv(),
        rule_gives(fl, *old(f), *r, rule17(), transform, q, *final(f)),
        q.rescaled(fl),
{
    qk(fl, f, r, XGK17.as_slice(), WG17.as_slice(), WGK17.as_slice(), WCK17, transform)
}

/// The 25-point rule, through the substitution for an infinite range where
/// `transform` is set.
pub fn qk25_mapped<A: Float, F: Integrand>(
    fl: &A,
    f: &mut F,
    r: &Range,
    transform: bool,
) -> (q: QKResult)
    requires
        old(f).inv(),
    ensures
        final(f).inv(),
        rule_gives(fl, *old(f), *r, rule25(), transform, q, *final(f)),
        q.rescaled(fl),
{
    qk(fl, f, r, XGK25.as_slice(), WG25.as_slice(), WGK25.as_slice(), WCK25, transform)
}

// Gauss-Kronrod abscissae and weights, as the bits of the nearest doubles.

/// The abscissae of the 17-point Kronrod rule, from the centre outwards.
pub const XGK17: [u64; 8] = [
    0x3FC7_7AC9_4F3C_7345,
    0x3FD7_15BA_0ECE_E33F,
    0x3FE0_D129_5832_84B4,
    0x3FE5_83EC_AF41_5769,
    0x3FE9_7E4A_B249_F41E,
    0x3FEC_9CA3_72B2_8CCD,
    0x3FEE_BAB1_CB0A_CC67,
    0x3FEF_C9C4_97ED_540D,
];

/// The Gauss weights of every second abscissa of the 17-point rule.
pub const WG17: [u64; 4] = [
    0x3FD7_3636_0B19_9343,
    0x3FD4_13C5_0A25_5615,
    0x3FCC_76FB_531D_2B96,
    0x3FB9_EA1D_04CA_0374,
];

/// The Kronrod weight of the centre in the 17-point rule.
pub const WCK17: u64 = 0x3FC7_9BF0_9844_E3A5;

/// The Kronrod weights of the abscissae of the 17-point rule.
pub const WGK17: [u64; 8] = [
    0x3FC7_381D_B394_94BC,
    0x3FC6_0668_E22C_7941,
    0x3FC4_0D31_4E29_AB33,
    0x3FC1_7111_CEF3_7C96,
    0x3FBC_94DB_476B_19F2,
    0x3FB5_1D8F_5868_B974,
    0x3FA9_501E_D156_202B,
    0x3F92_4007_E5FF_3553,
];

/// The abscissae of the 25-point Kronrod rule, from the centre outwards.
pub const XGK25: [u64; 12] = [
    0x3FC0_07A5_F8F6_30E4,
    0x3FCF_CF09_4EF3_C41E,
    0x3FD7_8A8D_20A8_B19D,
    0x3FDE_CE43_FB85_02CE,
    0x3FE2_CB4F_05C0_77F9,
    0x3FE5_E3D1_93F1_91F8,
    0x3FE8_A30A_EED8_8F36,
    0x3FEA_FE6D_9B71_8329,
    0x3FEC_EE87_4FFB_88B4,
    0x3FEE_6ACE_3D66_010B,
    0x3FEF_68F1_D8E4_2E81,
    0x3FEF_E6E1_F831_341A,
];

/// The Gauss weights of every second abscissa of the 25-point rule.
pub const WG25: [u64; 6] = [
    0x3FCF_E40C_E6D4_F025,
    0x3FCD_E315_5C25_6AB5,
    0x3FCA_0163_E6B1_AB72,
    0x3FC4_7D72_58F2_2D8F,
    0x3FBB_6060_2BCE_6181,
    0x3FA8_275D_9DEA_6D8F,
];

/// The Kronrod weight of the centre in the 25-point rule.
pub const WCK25: u64 = 0x3FC0_123F_908E_40D9;

/// The Kronrod weights of the abscissae of the 25-point rule.
pub const WGK25: [u64; 12] = [
    0x3FBF_E4BF_7048_4311,
    0x3FBF_22E6_C3F7_FE8D,
    0x3FBD_E0D7_54D6_CBD7,
    0x3FBC_2A71_0233_2012,
    0x3FBA_05B7_83C9_24E9,
    0x3FB7_6FC9_344B_1DEB,
    0x3FB4_75A7_B8D8_5AC1,
    0x3FB1_375A_FE68_E1A9,
    0x3FAB_7E2C_ED09_3DC0,
    0x3FA3_ECB2_745D_27C3,
    0x3F97_96C5_6E4D_24F4,
    0x3F80_E96B_445C_B323,
];

/// The abscissae of the 33-point Kronrod rule, from the centre outwards.
pub const XGK33: [u64; 16] = [
    0x3FB8_52BD_6676_A9F9,
    0x3FC8_36AD_0E28_1F81,
    0x3FD2_05CA_E642_337C,
    0x3FD7_C663_E877_80AA,
    0x3FDD_5025_9A43_A772,
    0x3FE1_4B05_0A0E_12C8,
    0x3FE3_C5A4_66D5_E8B8,
    0x3FE6_125B_F0FC_F5E4,
    0x3FE8_2C45_DDA4_726B,
    0x3FEA_0E41_A580_9A6D,
    0x3FEB_B340_3514_E483,
    0x3FED_17D1_D1D7_38B2,
    0x3FEE_39F5_6616_F9B0,
    0x3FEF_1693_A5E9_0DB0,
    0x3FEF_A92C_264D_787E,
    0x3FEF_F193_7D81_32E5,
];

/// The Gauss weights of every second abscissa of the 33-point rule.
pub const WG33: [u64; 8] = [
    0x3FC8_3FEA_E80E_4DFC,
    0x3FC7_5F8C_77E0_C00F,
    0x3FC5_A6EB_BB5A_75FC,
    0x3FC3_25F6_1BCA_3CBF,
    0x3FBF_E7AF_2BAD_386A,
    0x3FB8_5C4E_E79C_C258,
    0x3FAF_DFB1_A2C1_265D,
    0x3F9B_CDDA_B4B7_C211,
];

/// The Kronrod weight of the centre in the 33-point rule.
pub const WCK33: u64 = 0x3FB8_5C06_D624_6AFD;

/// The Kronrod weights of the abscissae of the 33-point rule.
pub const WGK33: [u64; 16] = [
    0x3FB8_401E_D95B_F5C1,
    0x3FB7_EB98_D145_F461,
    0x3FB7_5EEA_2761_E7B1,
    0x3FB6_9D49_5C96_6D45,
    0x3FB5_A812_12AB_02AD,
    0x3FB4_7E6A_43A4_C19C,
    0x3FB3_241D_7C50_FAFC,
    0x3FB1_A101_5840_9246,
    0x3FAF_ED7E_50E0_7B10,
    0x3FAC_43E9_A966_4DF4,
    0x3FA8_52BC_17F3_651E,
    0x3FA4_3B0A_A25D_9E05,
    0x3FA0_0161_C93D_C9C2,
    0x3F97_09F0_E5F8_20F6,
    0x3F8B_26F9_55BE_6F9A,
    0x3F73_6D29_8519_8B90,
];

/// The abscissae of the 41-point Kronrod rule, from the centre outwards.
pub const XGK41: [u64; 20] = [
    0x3FB3_973D_F98B_86B0,
    0x3FC3_8893_6D33_47C4,
    0x3FCD_2816_3692_8BC0,
    0x3FD3_4DDE_F947_687D,
    0x3FD7_EACC_F156_52C4,
    0x3FDC_63D4_A118_4386,
    0x3FE0_5905_C13F_7FF7,
    0x3FE2_678C_F036_51C8,
    0x3FE4_5A8D_3FA7_10DB,
    0x3FE6_2F00_BCCA_07BD,
    0x3FE7_E1F3_7346_A54E,
    0x3FE9_70FA_B8FA_510D,
    0x3FEA_DA0B_D5EF_D6E7,
    0x3FEC_1AD7_F8A5_3D29,
    0x3FED_3106_4173_FD92,
    0x3FEE_1B38_1174_9B67,
    0x3FEE_D8DB_A7BD_769F,
    0x3FEF_6883_354D_4953,
    0x3FEF_C7B5_A0C7_1CE0,
    0x3FEF_F6A7_373F_8C5C,
];

/// The Gauss weights of every second abscissa of the 41-point rule.
pub const WG41: [u64; 10] = [
    0x3FC3_8D6C_490A_3370,
    0x3FC3_1819_B52C_5992,
    0x3FC2_3034_8F34_A535,
    0x3FC0_DB2C_5DB2_6DFF,
    0x3FBE_41FF_3157_3B48,
    0x3FBA_1817_A317_A821,
    0x3FB5_519F_E196_E24A,
    0x3FB0_0B46_7DF7_E475,
    0x3FA4_C9B5_EA53_B67F,
    0x3F92_0968_0274_E8AF,
];

/// The Kronrod weight of the centre in the 41-point rule.
pub const WCK41: u64 = 0x3FB3_9C1A_B089_C29F;

/// The Kronrod weights of the abscissae of the 41-point rule.
pub const WGK41: [u64; 20] = [
    0x3FB3_8D7F_FBCA_307E,
    0x3FB3_615E_B5B7_1C80,
    0x3FB3_17DD_02AF_D144,
    0x3FB2_B223_AA95_6842,
    0x3FB2_309F_6965_EEC2,
    0x3FB1_92F5_9D24_4D10,
    0x3FB0_DA89_41A2_5CAA,
    0x3FB0_0A0A_E649_4B3A,
    0x3FAE_43D9_7B34_C88C,
    0x3FAC_4288_68BD_8602,
    0x3FAA_1568_3DD2_77A7,
    0x3FA7_C64E_12A2_0ABC,
    0x3FA5_559F_6068_DD56,
    0x3FA2_BD41_E847_6F40,
    0x3FA0_04E3_CEC6_48EA,
    0x3F9A_80D8_9589_2EDC,
    0x3F94_E0B0_94F0_689B,
    0x3F8D_F453_34FE_E0C5,
    0x3F81_9D04_AE22_53A2,
    0x3F69_2DC5_B1AE_9A2E,
];

/// The abscissae of the 49-point Kronrod rule, from the centre outwards.
pub const XGK49: [u64; 24] = [
    0x3FB0_6608_53ED_A2E8,
    0x3FC0_5D6D_EFE4_23AA,
    0x3FC8_7695_42B9_4F8D,
    0x3FD0_3AFD_4CAC_1D5B,
    0x3FD4_29A8_C588_E910,
    0x3FD8_0321_C2E6_C356,
    0x3FDB_C345_D81E_24B5,
    0x3FDF_6631_682B_6FDC,
    0x3FE1_7417_BAC4_D72B,
    0x3FE3_22BD_0091_6F54,
    0x3FE4_BD2E_E5FA_1086,
    0x3FE6_41CC_7A08_6CB4,
    0x3FE7_AF18_EDB9_DDD6,
    0x3FE9_037F_F577_D21F,
    0x3FEA_3D74_CE0D_3700,
    0x3FEB_5BC8_146B_7A74,
    0x3FEC_5D84_1864_D0F5,
    0x3FED_4175_B174_5EF9,
    0x3FEE_0658_5A70_AA4D,
    0x3FEE_AB8D_E534_97C7,
    0x3FEF_30F9_F0CB_F876,
    0x3FEF_95D5_F346_E586,
    0x3FEF_D892_DE69_1982,
    0x3FEF_F974_7E37_C385,
];

/// The Gauss weights of every second abscissa of the 49-point rule.
pub const WG49: [u64; 12] = [
    0x3FC0_6047_5E76_3736,
    0x3FC0_1B71_17CF_8BD8,
    0x3FBF_25CB_CE1D_1FF6,
    0x3FBD_91C7_8ACB_1B2D,
    0x3FBB_8177_BA4A_68DC,
    0x3FB8_FD89_3644_4B16,
    0x3FB6_108E_F504_463A,
    0x3FB2_C6D5_C2EF_F064,
    0x3FAE_5C62_55D2_5EDA,
    0x3FA6_AB88_4F57_C979,
    0x3F9D_3755_1448_6F1D,
    0x3F89_465B_D311_2202,
];

/// The Kronrod weight of the centre in the 49-point rule.
pub const WCK49: u64 = 0x3FB0_68E3_538C_2499;

/// The Kronrod weights of the abscissae of the 49-point rule.
pub const WGK49: [u64; 24] = [
    0x3FB0_6050_3CA4_E0C7,
    0x3FB0_4671_78EB_5CB1,
    0x3FB0_1B55_FB8E_9F01,
    0x3FAF_BEFD_0CA3_60D5,
    0x3FAF_2629_B444_177C,
    0x3FAE_6BD8_5C2A_5C1A,
    0x3FAD_913C_0040_772C,
    0x3FAC_9898_9396_19E2,
    0x3FAB_823A_B19F_61B2,
    0x3FAA_4D6C_A63F_4F62,
    0x3FA8_FC7E_D035_9A9E,
    0x3FA7_9353_BE97_4B62,
    0x3FA6_11FA_EFB6_172C,
    0x3FA4_76A2_EB0B_3B20,
    0x3FA2_C4D9_BB58_FB92,
    0x3FA1_032D_CE6E_545F,
    0x3F9E_6227_A527_EC15,
    0x3F9A_92F3_3173_6FE8,
    0x3F96_A274_0703_DD22,
    0x3F92_AB31_AE90_D846,
    0x3F8D_57B5_10FF_C9F3,
    0x3F85_0315_38BC_04DC,
    0x3F78_AE5F_BF2E_FE70,
    0x3F61_A1B7_DACA_777A,
];

/// The abscissae of the 57-point Kronrod rule, from the centre outwards.
pub const XGK57: [u64; 28] = [
    0x3FAC_335A_497A_4809,
    0x3FBC_2869_A889_6BA7,
    0x3FC5_109B_3258_335D,
    0x3FCB_FC9E_0232_02BA,
    0x3FD1_6975_2C4C_22BB,
    0x3FD4_C713_7732_7D69,
    0x3FD8_1481_3D2B_129C,
    0x3FDB_4F34_7D6F_943B,
    0x3FDE_74B9_2A4C_42D9,
    0x3FE0_C149_2E2E_31BA,
    0x3FE2_3B26_6D49_5548,
    0x3FE3_A6D5_CBC3_9B28,
    0x3FE5_0349_27B8_F20A,
    0x3FE6_4F68_0E0F_EE50,
    0x3FE7_8A1F_D2F4_D007,
    0x3FE8_B288_2BE5_AF4E,
    0x3FE9_C7D0_698C_9ABF,
    0x3FEA_C910_EF8E_F3E1,
    0x3FEB_B564_3C49_DAE1,
    0x3FEC_8C27_8566_81D0,
    0x3FED_4CDD_A1EF_BC1B,
    0x3FED_F6D5_2EC7_C3A5,
    0x3FEE_894A_C246_95B7,
    0x3FEF_03F1_7565_5BF2,
    0x3FEF_66D5_E557_556D,
    0x3FEF_B17F_80D5_F95A,
    0x3FEF_E2DB_606D_9717,
    0x3FEF_FB29_B078_A943,
];

/// The Gauss weights of every second abscissa of the 57-point rule.
pub const WG57: [u64; 14] = [
    0x3FBC_2C0A_81ED_A19D,
    0x3FBB_D47F_2775_62FD,
    0x3FBB_2678_7E30_DBFB,
    0x3FBA_2413_503E_CAA0,
    0x3FB8_D072_9614_B3E3,
    0x3FB7_2FB5_B81C_1868,
    0x3FB5_46EB_C0DB_6001,
    0x3FB3_1C03_A8E8_5DE3,
    0x3FB0_B5B9_F1C0_A7A2,
    0x3FAC_3707_AEE4_A4E2,
    0x3FA6_AAF1_2DC6_9637,
    0x3FA0_D874_B8A2_26E9,
    0x3F95_A3A8_11EC_E501,
    0x3F82_AFC0_7AB1_C5C9,
];

/// The Kronrod weight of the centre in the 57-point rule.
pub const WCK57: u64 = 0x3FAC_36FC_98FC_4569;

/// The Kronrod weights of the abscissae of the 57-point rule.
pub const WGK57: [u64; 28] = [
    0x3FAC_2C13_829D_6ACF,
    0x3FAC_0B31_714F_6F38,
    0x3FAB_D463_C3E6_B282,
    0x3FAB_8829_7551_64E1,
    0x3FAB_26A7_73F3_9639,
    0x3FAA_AFAC_79F5_70EA,
    0x3FAA_23CE_A22A_A9B4,
    0x3FA9_8426_3F0F_EAAF,
    0x3FA8_D0D0_5D83_4F6D,
    0x3FA8_0975_C853_A192,
    0x3FA7_2F39_A930_EA57,
    0x3FA6_43EC_6CEF_B318,
    0x3FA5_478D_E1C6_96A2,
    0x3FA4_3964_3644_F826,
    0x3FA3_1B2F_3100_6071,
    0x3FA1_EFC1_AD9B_B2F3,
    0x3FA0_B6D4_5E70_0855,
    0x3F9E_DD7E_E408_81E6,
    0x3F9C_3401_C8A8_58B5,
    0x3F99_7A7A_0EA7_0DA5,
    0x3F96_AF48_3BBA_E96B,
    0x3F93_CA23_2AC0_A943,
    0x3F90_D1AF_6D67_44D5,
    0x3F8B_B1C5_6AD2_DB80,
    0x3F85_BBAB_956A_478B,
    0x3F7F_1788_2460_5AEC,
    0x3F72_3F56_DB33_6F50,
    0x3F5A_1007_D15E_B015,
];

} // verus!
