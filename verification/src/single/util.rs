//! Small steps shared by the algorithms.

use vstd::prelude::*;
use crate::float::{
    Double,
    Float,
    FIFTY_EPSILON_BITS,
    HALF_BITS,
    INFINITY_BITS,
    MINUS_ONE_BITS,
    NEG_INFINITY_BITS,
    NEGLIGIBLE_ABS_BITS,
    ONE_BITS,
    ONE_LESS_FIFTY_EPSILON_BITS,
    ONE_PLUS_HUNDRED_EPSILON_BITS,
    THOUSAND_MIN_POSITIVE_BITS,
    TWO_HUNDRED_BITS,
};
use crate::single::common::{evaluated, yields_all, Integrand, Range};

verus! {

/// Whether `c` is what the arithmetic `fl` may give for `1 / (1 - |t|)`: a
/// quotient of one by a difference of one and the magnitude of `t`.
pub open spec fn is_jacobian_factor<A: Float>(fl: &A, t: Double, c: Double) -> bool {
    exists|d: Double|
        #![trigger fl.is_quotient(Double::from_bits(ONE_BITS), d, c)]
        fl.is_difference(Double::from_bits(ONE_BITS), t.abs(), d) && fl.is_quotient(
            Double::from_bits(ONE_BITS),
            d,
            c,
        )
}

/// The factor `1 / (1 - |t|)` of the substitution `x = t / (1 - |t|)`, which
/// maps the range from -1 to 1 onto the whole line. The point `t` goes to
/// `t` times the factor, and the integrand there is weighted by the square of
/// the factor.
pub fn jacobian_factor<A: Float>(fl: &A, t: Double) -> (c: Double)
    ensures
        is_jacobian_factor(fl, t, c),
{
    let one = Double::from_bits(ONE_BITS);
    fl.div(one, fl.sub(one, t.abs()))
}

/// Whether `factors` and `points` are what the arithmetic `fl` may give
/// when each point of `ts` is taken through the substitution: its Jacobian
/// factor, and a product of the point and that factor.
pub open spec fn substituted<A: Float>(
    fl: &A,
    ts: Seq<Double>,
    factors: Seq<Double>,
    points: Seq<Double>,
) -> bool {
    &&& factors.len() == ts.len()
    &&& points.len() == ts.len()
    &&& forall|k: int|
        0 <= k < ts.len() ==> is_jacobian_factor(fl, #[trigger] ts[k], factors[k])
            && fl.is_product(ts[k], factors[k], points[k])
}

/// Whether `w` is what the arithmetic `fl` may give for `y` times `c` times
/// `c`, multiplied in that order.
pub open spec fn is_weighted<A: Float>(fl: &A, y: Double, c: Double, w: Double) -> bool {
    exists|p: Double| #[trigger] fl.is_product(y, c, p) && fl.is_product(p, c, w)
}

/// Whether each of `results` is the value at its place in `values`, weighted
/// by the square of the factor at its place.
pub open spec fn weighted<A: Float>(
    fl: &A,
    values: Seq<Double>,
    factors: Seq<Double>,
    results: Seq<Double>,
) -> bool {
    &&& factors.len() == values.len()
    &&& results.len() == values.len()
    &&& forall|k: int|
        0 <= k < values.len() ==> is_weighted(fl, #[trigger] values[k], factors[k], results[k])
}

/// Whether evaluations at the points `xs`, from the first to the last, made
/// of the integrand `before`, may leave the values `ys` and the integrand
/// `after`. Without `transform` the integrand is evaluated at the points
/// themselves. With it the points are first taken through the substitution,
/// and the values of the integrand there are weighted by the squares of the
/// Jacobian factors.
pub open spec fn evaluated_at<A: Float, F: Integrand>(
    fl: &A,
    before: F,
    transform: bool,
    xs: Seq<Double>,
    ys: Seq<Double>,
    after: F,
) -> bool {
    if transform {
        exists|factors: Seq<Double>, points: Seq<Double>, values: Seq<Double>|
            #![trigger substituted(fl, xs, factors, points), weighted(fl, values, factors, ys)]
            substituted(fl, xs, factors, points) && yields_all(before, points, values, after)
                && weighted(fl, values, factors, ys)
    } else {
        yields_all(before, xs, ys, after)
    }
}

/// What `apply_to_slice` states of its evaluations, as one relation.
proof fn lemma_yields_all<F: Integrand>(
    states: Seq<F>,
    before: F,
    xs: Seq<Double>,
    ys: Seq<Double>,
    after: F,
)
    requires
        states.len() == xs.len() + 1,
        ys.len() == xs.len(),
        states[0] == before,
        states.last() == after,
        forall|k: int|
            0 <= k < xs.len() ==> states[k].yields(#[trigger] xs[k], ys[k], &states[k + 1]),
    ensures
        yields_all(before, xs, ys, after),
{
    assert(evaluated(states, xs, ys));
}

/// Evaluates the integrand at the points of `buf`, from the first to the
/// last, and leaves its values there. With `transform` set, each point is
/// first taken through the substitution that maps the range from -1 to 1 onto
/// the whole line, and each value is weighted by the Jacobian.
pub fn evaluate<A: Float, F: Integrand>(fl: &A, f: &mut F, transform: bool, buf: &mut Vec<Double>)
    requires
        old(f).inv(),
    ensures
        final(f).inv(),
        final(buf)@.len() == old(buf)@.len(),
        evaluated_at(fl, *old(f), transform, old(buf)@, final(buf)@, *final(f)),
{
    if !transform {
        f.apply_to_slice(buf.as_mut_slice());
        proof {
            let states = choose|states: Seq<F>|
                #![trigger states[0]]
                {
                    &&& states.len() == old(buf)@.len() + 1
                    &&& states[0] == *old(f)
                    &&& states.last() == *f
                    &&& forall|k: int|
                        0 <= k < old(buf)@.len() ==> states[k].yields(
                            #[trigger] old(buf)@[k],
                            buf@[k],
                            &states[k + 1],
                        )
                };
            lemma_yields_all(states, *old(f), old(buf)@, buf@, *f);
        }
        return ;
    }
    let n = buf.len();
    let mut factors: Vec<Double> = Vec::with_capacity(n);
    let mut k: usize = 0;
    while k < n
        invariant
            k <= n,
            buf@.len() == n,
            n == old(buf)@.len(),
            factors@.len() == k,
            *f == *old(f),
            forall|j: int|
                0 <= j < k ==> is_jacobian_factor(fl, #[trigger] old(buf)@[j], factors@[j])
                    && fl.is_product(old(buf)@[j], factors@[j], buf@[j]),
            forall|j: int| k <= j < n ==> buf@[j] == old(buf)@[j],
        decreases n - k,
    {
        let coef = jacobian_factor(fl, buf[k]);
        buf[k] = fl.mul(buf[k], coef);
        factors.push(coef);
        k += 1;
    }
    let ghost points = buf@;
    assert(substituted(fl, old(buf)@, factors@, points));
    f.apply_to_slice(buf.as_mut_slice());
    let ghost values = buf@;
    proof {
        let states = choose|states: Seq<F>|
            #![trigger states[0]]
            {
                &&& states.len() == points.len() + 1
                &&& states[0] == *old(f)
                &&& states.last() == *f
                &&& forall|k: int|
                    0 <= k < points.len() ==> states[k].yields(
                        #[trigger] points[k],
                        values[k],
                        &states[k + 1],
                    )
            };
        lemma_yields_all(states, *old(f), points, values, *f);
    }
    k = 0;
    while k < n
        invariant
            k <= n,
            buf@.len() == n,
            values.len() == n,
            factors@.len() == n,
            forall|j: int|
                0 <= j < k ==> is_weighted(fl, #[trigger] values[j], factors@[j], buf@[j]),
            forall|j: int| k <= j < n ==> buf@[j] == values[j],
        decreases n - k,
    {
        let ghost y = buf@[k as int];
        let p = fl.mul(buf[k], factors[k]);
        let w = fl.mul(p, factors[k]);
        buf[k] = w;
        proof {
            assert(fl.is_product(y, factors@[k as int], p) && fl.is_product(
                p,
                factors@[k as int],
                w,
            ));
            assert(is_weighted(fl, values[k as int], factors@[k as int], w));
        }
        k += 1;
    }
    assert(weighted(fl, values, factors@, buf@));
}

/// The widest magnitude that an end of a subrange may have for the subrange
/// to count as too narrow at its midpoint `a2`: what the arithmetic `fl` may
/// give for the magnitude of `a2`, raised by a thousand times the smallest
/// normal double and widened by a hundred machine epsilons.
pub open spec fn is_narrowness_limit<A: Float>(fl: &A, a2: Double, tmp: Double) -> bool {
    exists|s: Double| #[trigger]
        fl.is_sum(a2.abs(), Double::from_bits(THOUSAND_MIN_POSITIVE_BITS), s) && fl.is_product(
            Double::from_bits(ONE_PLUS_HUNDRED_EPSILON_BITS),
            s,
            tmp,
        )
}

/// Whether the subrange from `a1` over `a2` to `b2` is too narrow, at the
/// magnitude of its midpoint `a2`, to be bisected again: true when the
/// magnitudes of both ends are at most that of `a2`, widened by a hundred
/// machine epsilons and a thousand times the smallest normal double.
pub fn subrange_too_small<A: Float>(fl: &A, a1: Double, a2: Double, b2: Double) -> (r: bool)
    ensures
        exists|tmp: Double| #[trigger]
            is_narrowness_limit(fl, a2, tmp) && r == (a1.abs().le(tmp) && b2.abs().le(tmp)),
{
    let s = fl.add(a2.abs(), Double::from_bits(THOUSAND_MIN_POSITIVE_BITS));
    let tmp = fl.mul(Double::from_bits(ONE_PLUS_HUNDRED_EPSILON_BITS), s);
    proof {
        assert(fl.is_sum(a2.abs(), Double::from_bits(THOUSAND_MIN_POSITIVE_BITS), s));
        assert(is_narrowness_limit(fl, a2, tmp));
    }
    // the ends need not be in ascending order, so both are checked
    a1.abs().le(tmp) && b2.abs().le(tmp)
}

/// The error estimate of a rule, chosen among its candidates.
///
/// * `err` is the magnitude of the difference of the Kronrod and the Gauss
///   sum, `scaled` is 200 times it;
/// * `result_asc` is the deviation from the mean, `reduced` is that deviation
///   times `s * sqrt(s)`, where `s` is `scaled` over the deviation;
/// * `result_abs` is the integral of the magnitude, `floor` is fifty machine
///   epsilons of it.
///
/// Where `err` or the deviation is zero, `err` stands. Otherwise the
/// deviation stands, reduced where `scaled` is below it. The choice is then
/// raised to `floor` where that is larger and `result_abs` is not negligible.
pub open spec fn spec_rescaled(
    err: Double,
    scaled: Double,
    reduced: Double,
    result_asc: Double,
    result_abs: Double,
    floor: Double,
) -> Double {
    let chosen = if result_asc.num_ne(Double::from_bits(0)) && err.num_ne(Double::from_bits(0)) {
        if scaled.lt(result_asc) {
            reduced
        } else {
            result_asc
        }
    } else {
        err
    };
    if result_abs.gt(Double::from_bits(NEGLIGIBLE_ABS_BITS)) && floor.gt(chosen) {
        floor
    } else {
        chosen
    }
}

/// The error estimate of a rule, chosen among its candidates: see
/// `spec_rescaled`.
#[verifier::when_used_as_spec(spec_rescaled)]
pub fn rescaled(
    err: Double,
    scaled: Double,
    reduced: Double,
    result_asc: Double,
    result_abs: Double,
    floor: Double,
) -> (r: Double)
    ensures
        r == spec_rescaled(err, scaled, reduced, result_asc, result_abs, floor),
{
    let zero = Double::from_bits(0);
    let chosen = if result_asc.num_ne(zero) && err.num_ne(zero) {
        if scaled.lt(result_asc) {
            reduced
        } else {
            result_asc
        }
    } else {
        err
    };
    if result_abs.gt(Double::from_bits(NEGLIGIBLE_ABS_BITS)) && floor.gt(chosen) {
        floor
    } else {
        chosen
    }
}

/// Whether `reduced` is what the arithmetic `fl` may give for the deviation
/// `result_asc` times `s * sqrt(s)`, where `s` is `scaled` over the
/// deviation.
pub open spec fn is_reduced<A: Float>(
    fl: &A,
    scaled: Double,
    result_asc: Double,
    reduced: Double,
) -> bool {
    exists|scale: Double, p: Double, root: Double|
        #![trigger fl.is_quotient(scaled, result_asc, scale), fl.is_product(p, root, reduced)]
        {
            &&& fl.is_quotient(scaled, result_asc, scale)
            &&& fl.is_product(result_asc, scale, p)
            &&& scale.has_root(root)
            &&& fl.is_product(p, root, reduced)
        }
}

/// Whether `scaled`, `reduced` and `floor` are the candidates that the
/// arithmetic `fl` may give for the magnitude `err` of a difference of sums:
/// 200 times `err` and the reduced deviation, as far as they are asked for,
/// and fifty machine epsilons of `result_abs`, where that is not negligible.
pub open spec fn are_candidates<A: Float>(
    fl: &A,
    err: Double,
    result_abs: Double,
    result_asc: Double,
    scaled: Double,
    reduced: Double,
    floor: Double,
) -> bool {
    &&& result_asc.num_ne(Double::from_bits(0)) && err.num_ne(Double::from_bits(0)) ==> {
        &&& fl.is_product(Double::from_bits(TWO_HUNDRED_BITS), err, scaled)
        &&& scaled.lt(result_asc) ==> is_reduced(fl, scaled, result_asc, reduced)
    }
    &&& result_abs.gt(Double::from_bits(NEGLIGIBLE_ABS_BITS)) ==> fl.is_product(
        Double::from_bits(FIFTY_EPSILON_BITS),
        result_abs,
        floor,
    )
}

/// Whether `r` is the error estimate that the arithmetic `fl` may give for
/// the difference `err` of the Kronrod and Gauss sums, the integral
/// `result_abs` of the magnitude and the deviation `result_asc` from the
/// mean: the choice of `spec_rescaled` among the candidates that `fl` gives.
pub open spec fn is_rescaled<A: Float>(
    fl: &A,
    err: Double,
    result_abs: Double,
    result_asc: Double,
    r: Double,
) -> bool {
    exists|scaled: Double, reduced: Double, floor: Double|
        #![trigger are_candidates(fl, err.abs(), result_abs, result_asc, scaled, reduced, floor)]
        {
            &&& are_candidates(fl, err.abs(), result_abs, result_asc, scaled, reduced, floor)
            &&& r == spec_rescaled(err.abs(), scaled, reduced, result_asc, result_abs, floor)
        }
}

/// An error estimate that was raised to its floor is no smaller than the
/// floor: where the integral of the magnitude is not negligible and neither
/// the floor nor the choice is a NaN, the choice is at least the floor.
pub proof fn lemma_rescaled_floor(
    err: Double,
    scaled: Double,
    reduced: Double,
    result_asc: Double,
    result_abs: Double,
    floor: Double,
)
    requires
        result_abs.gt(Double::from_bits(NEGLIGIBLE_ABS_BITS)),
        !floor.is_nan(),
        !spec_rescaled(err, scaled, reduced, result_asc, result_abs, floor).is_nan(),
    ensures
        floor.le(spec_rescaled(err, scaled, reduced, result_asc, result_abs, floor)),
{
}

/// The error estimate of a rule, from the difference `err` of its Kronrod and
/// Gauss sums, the integral `result_abs` of the magnitude and the deviation
/// `result_asc` from the mean: `rescaled`, with the products and the quotient
/// that it needs asked of `fl`.
pub fn rescale_error<A: Float>(
    fl: &A,
    err: Double,
    result_abs: Double,
    result_asc: Double,
) -> (r: Double)
    ensures
        is_rescaled(fl, err, result_abs, result_asc, r),
        (result_asc.num_eq(Double::from_bits(0)) || err.num_eq(Double::from_bits(0)))
            && !Double::from_bits(NEGLIGIBLE_ABS_BITS).lt(result_abs) ==> r == err.abs(),
{
    let zero = Double::from_bits(0);
    let ghost given = err;
    let err = err.abs();
    let mut scaled = zero;
    let mut reduced = zero;
    if result_asc.num_ne(zero) && err.num_ne(zero) {
        scaled = fl.mul(Double::from_bits(TWO_HUNDRED_BITS), err);
        if scaled.lt(result_asc) {
            let scale = fl.div(scaled, result_asc);
            let p = fl.mul(result_asc, scale);
            let root = scale.sqrt();
            reduced = fl.mul(p, root);
            proof {
                assert(fl.is_quotient(scaled, result_asc, scale) && fl.is_product(
                    p,
                    root,
                    reduced,
                ));
                assert(is_reduced(fl, scaled, result_asc, reduced));
            }
        }
    }
    let floor = if result_abs.gt(Double::from_bits(NEGLIGIBLE_ABS_BITS)) {
        fl.mul(Double::from_bits(FIFTY_EPSILON_BITS), result_abs)
    } else {
        zero
    };
    proof {
        assert(err == given.abs());
        assert(are_candidates(fl, given.abs(), result_abs, result_asc, scaled, reduced, floor));
    }
    rescaled(err, scaled, reduced, result_asc, result_abs, floor)
}

/// Whether `floor` is what the arithmetic `fl` may give for the integral
/// `resabs` of the magnitude, less fifty machine epsilons of it.
pub open spec fn is_positivity_floor<A: Float>(fl: &A, resabs: Double, floor: Double) -> bool {
    fl.is_product(Double::from_bits(ONE_LESS_FIFTY_EPSILON_BITS), resabs, floor)
}

/// Compare the integral of f(x) with the integral of |f(x)| to determine if
/// f(x) covers both positive and negative values
pub fn test_positivity<A: Float>(fl: &A, result: Double, resabs: Double) -> (r: bool)
    ensures
        exists|floor: Double| #[trigger]
            is_positivity_floor(fl, resabs, floor) && r == floor.le(result.abs()),
{
    let floor = fl.mul(Double::from_bits(ONE_LESS_FIFTY_EPSILON_BITS), resabs);
    proof {
        assert(is_positivity_floor(fl, resabs, floor));
    }
    result.abs().ge(floor)
}

/// Whether `c` is what the arithmetic `fl` may give for the midpoint of
/// `range`: a product of a sum of the two ends and one half.
pub open spec fn is_midpoint<A: Float>(fl: &A, range: Range, c: Double) -> bool {
    exists|s: Double| #[trigger]
        fl.is_sum(range.begin, range.end, s) && fl.is_product(s, Double::from_bits(HALF_BITS), c)
}

/// The two halves of a range: they meet at its midpoint, and together they
/// run from the beginning of the range to its end.
pub fn bisect<A: Float>(fl: &A, range: &Range) -> (r: (Range, Range))
    ensures
        r.0.begin == range.begin,
        r.0.end == r.1.begin,
        r.1.end == range.end,
        is_midpoint(fl, *range, r.0.end),
{
    let s = fl.add(range.begin, range.end);
    let center = fl.mul(s, Double::from_bits(HALF_BITS));
    proof {
        assert(fl.is_sum(range.begin, range.end, s));
    }
    (Range { begin: range.begin, end: center }, Range { begin: center, end: range.end })
}

/// Whether `r` is the image of the point `x` of the line in the range from
/// -1 to 1: -1 and 1 for the two infinities, and otherwise what the
/// arithmetic `fl` may give for `x / (1 + |x|)`.
pub open spec fn is_image<A: Float>(fl: &A, x: Double, r: Double) -> bool {
    if x.num_eq(Double::from_bits(NEG_INFINITY_BITS)) {
        r == Double::from_bits(MINUS_ONE_BITS)
    } else if x.num_eq(Double::from_bits(INFINITY_BITS)) {
        r == Double::from_bits(ONE_BITS)
    } else {
        exists|s: Double| #[trigger]
            fl.is_sum(Double::from_bits(ONE_BITS), x.abs(), s) && fl.is_quotient(x, s, r)
    }
}

/// The image of a point of the line in the range from -1 to 1: `x / (1 + |x|)`,
/// and -1 and 1 for the two infinities.
pub fn transform_point<A: Float>(fl: &A, x: Double) -> (r: Double)
    ensures
        is_image(fl, x, r),
        x.num_eq(Double::from_bits(NEG_INFINITY_BITS)) ==> r == Double::from_bits(MINUS_ONE_BITS),
        x.num_eq(Double::from_bits(INFINITY_BITS)) ==> r == Double::from_bits(ONE_BITS),
{
    if x.num_eq(Double::from_bits(NEG_INFINITY_BITS)) {
        Double::from_bits(MINUS_ONE_BITS)
    } else if x.num_eq(Double::from_bits(INFINITY_BITS)) {
        Double::from_bits(ONE_BITS)
    } else {
        let s = fl.add(Double::from_bits(ONE_BITS), x.abs());
        let r = fl.div(x, s);
        proof {
            assert(fl.is_sum(Double::from_bits(ONE_BITS), x.abs(), s));
        }
        r
    }
}

/// The image of a range under `transform_point`.
pub fn transform_range<A: Float>(fl: &A, range: &Range) -> (r: Range)
    ensures
        is_image(fl, range.begin, r.begin),
        is_image(fl, range.end, r.end),
{
    let begin = transform_point(fl, range.begin);
    let end = transform_point(fl, range.end);
    Range { begin, end }
}

} // verus!
