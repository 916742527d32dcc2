use gkquad::single::util::{
    bisect, evaluate, jacobian_factor, rescale_error, rescaled, subrange_too_small,
    test_positivity, transform_point, transform_range,
};
use gkquad::single::{Integrand, QKResult, Range};
use gkquad::{Double, Float};

/// The arithmetic of the machine.
struct UtilHardware;

fn util_value(x: Double) -> f64 {
    f64::from_bits(x.to_bits())
}

fn util_double(x: f64) -> Double {
    Double::from_bits(x.to_bits())
}

impl Float for UtilHardware {
    fn add(&self, a: Double, b: Double) -> Double {
        util_double(util_value(a) + util_value(b))
    }

    fn sub(&self, a: Double, b: Double) -> Double {
        util_double(util_value(a) - util_value(b))
    }

    fn mul(&self, a: Double, b: Double) -> Double {
        util_double(util_value(a) * util_value(b))
    }

    fn div(&self, a: Double, b: Double) -> Double {
        util_double(util_value(a) / util_value(b))
    }
}

struct UtilFunc<G: FnMut(f64) -> f64>(G);

impl<G: FnMut(f64) -> f64> Integrand for UtilFunc<G> {
    fn apply(&mut self, x: Double) -> Double {
        util_double((self.0)(util_value(x)))
    }
}

fn util_range(a: f64, b: f64) -> Range {
    Range::new(util_double(a), util_double(b)).unwrap()
}

#[test]
fn range_rejects_nan_ends() {
    assert_eq!(Range::new(util_double(f64::NAN), util_double(1.0)), None);
    assert_eq!(Range::new(util_double(0.0), util_double(f64::NAN)), None);
    let r = Range::new(util_double(f64::NEG_INFINITY), util_double(2.0)).unwrap();
    assert_eq!((util_value(r.begin), util_value(r.end)), (f64::NEG_INFINITY, 2.0));
    let r = Range::new_unchecked(util_double(3.0), util_double(-2.0));
    assert_eq!((util_value(r.begin), util_value(r.end)), (3.0, -2.0));
    assert!(r.is_wf());
    assert!(!Range { begin: util_double(f64::NAN), end: util_double(1.0) }.is_wf());
    assert!(!Range { begin: util_double(1.0), end: util_double(f64::NAN) }.is_wf());
}

#[test]
fn rescale_error_follows_its_formula() {
    let f = |err: f64, abs: f64, asc: f64| {
        util_value(rescale_error(&UtilHardware, util_double(err), util_double(abs), util_double(asc)))
    };
    // 200 |err| below asc: asc * s * sqrt(s) with s = 200 |err| / asc
    assert_eq!(f(1e-3, 2.0, 0.5), 0.1264911064067352);
    assert_eq!(f(-1e-3, 2.0, 0.5), 0.1264911064067352);
    // 200 |err| at or above asc: asc
    assert_eq!(f(0.01, 2.0, 0.5), 0.5);
    assert_eq!(f(0.0025, 2.0, 0.5), 0.5);
    // err zero: the floor of fifty epsilons of the integral of the magnitude
    assert_eq!(f(0.0, 2.0, 0.5), 2.220446049250313e-14);
    // asc zero: |err| stands
    assert_eq!(f(1e-3, 2.0, 0.0), 0.001);
    assert_eq!(f(-1e-3, 2.0, 0.0), 0.001);
    // a rescaled error below the floor is raised to it
    assert_eq!(f(1e-20, 4.0, 0.5), 4.440892098500626e-14);
    // a negligible integral of the magnitude sets no floor
    assert_eq!(f(1e-310, 1e-300, 0.0), 1e-310);
}

#[test]
fn rescaled_chooses_among_candidates() {
    let f = |err: f64, scaled: f64, reduced: f64, asc: f64, abs: f64, floor: f64| {
        util_value(rescaled(
            util_double(err),
            util_double(scaled),
            util_double(reduced),
            util_double(asc),
            util_double(abs),
            util_double(floor),
        ))
    };
    // err or the deviation zero: err stands
    assert_eq!(f(0.25, 50.0, 7.0, 0.0, 1.0, 1e-3), 0.25);
    assert_eq!(f(0.0, 50.0, 7.0, 2.0, 1.0, 0.0), 0.0);
    // scaled below the deviation: the reduced deviation
    assert_eq!(f(0.25, 1.0, 7.0, 2.0, 1.0, 1e-3), 7.0);
    // scaled at or above the deviation: the deviation
    assert_eq!(f(0.25, 2.0, 7.0, 2.0, 1.0, 1e-3), 2.0);
    assert_eq!(f(0.25, 50.0, 7.0, 2.0, 1.0, 1e-3), 2.0);
    // the floor raises the choice, unless the integral of the magnitude is
    // negligible
    assert_eq!(f(0.25, 50.0, 7.0, 2.0, 1.0, 3.0), 3.0);
    assert_eq!(f(0.25, 50.0, 7.0, 2.0, 1e-300, 3.0), 2.0);
    assert_eq!(f(0.0, 50.0, 7.0, 2.0, 1.0, 3.0), 3.0);
    // a NaN deviation counts as nonzero
    assert_eq!(f(0.25, f64::NAN, 7.0, f64::NAN, 1.0, 0.0).to_bits(), f64::NAN.to_bits());
}

#[test]
fn subrange_too_small_compares_ends_with_midpoint() {
    let f = |a1: f64, a2: f64, b2: f64| {
        subrange_too_small(&UtilHardware, util_double(a1), util_double(a2), util_double(b2))
    };
    assert!(!f(0.0, 0.5, 1.0));
    assert!(!f(1.0, 1.5, 2.0));
    assert!(f(1.0, 1.0, 1.0));
    assert!(f(1e20, 1e20, 1e20 + 16384.0));
    assert!(f(1.0, 1.0, 1.0000000000000222));
    assert!(!f(1.0, 1.0, 1.0000000000000224));
    // the ends need not ascend
    assert!(f(-1.0000000000000222, -1.0, -1.0));
    assert!(!f(2.0, 1.0, 0.0));
    assert!(f(0.0, 0.0, 0.0));
}

#[test]
fn test_positivity_compares_with_integral_of_magnitude() {
    let f = |result: f64, resabs: f64| {
        test_positivity(&UtilHardware, util_double(result), util_double(resabs))
    };
    assert!(f(1.0, 1.0));
    assert!(f(-1.0, 1.0));
    assert!(f(0.99999999999999, 1.0));
    assert!(!f(0.9999999999999, 1.0));
    assert!(!f(0.5, 1.0));
    assert!(f(0.0, 0.0));
}

#[test]
fn bisect_splits_at_midpoint() {
    let (left, right) = bisect(&UtilHardware, &util_range(1.0, 4.0));
    assert_eq!(left, util_range(1.0, 2.5));
    assert_eq!(right, util_range(2.5, 4.0));
    let (left, right) = bisect(&UtilHardware, &util_range(3.0, -1.0));
    assert_eq!(left, util_range(3.0, 1.0));
    assert_eq!(right, util_range(1.0, -1.0));
}

#[test]
fn transform_point_maps_line_into_unit_range() {
    let f = |x: f64| util_value(transform_point(&UtilHardware, util_double(x)));
    assert_eq!(f(f64::NEG_INFINITY), -1.0);
    assert_eq!(f(f64::INFINITY), 1.0);
    assert_eq!(f(0.0), 0.0);
    assert_eq!(f(3.0), 0.75);
    assert_eq!(f(-3.0), -0.75);
    assert_eq!(f(1.0), 0.5);
}

#[test]
fn transform_range_maps_both_ends() {
    let r = transform_range(&UtilHardware, &util_range(f64::NEG_INFINITY, f64::INFINITY));
    assert_eq!(r, util_range(-1.0, 1.0));
    let r = transform_range(&UtilHardware, &util_range(3.0, f64::INFINITY));
    assert_eq!(r, util_range(0.75, 1.0));
    let r = transform_range(&UtilHardware, &util_range(f64::INFINITY, -1.0));
    assert_eq!(r, util_range(1.0, -0.5));
}

#[test]
fn jacobian_factor_is_reciprocal_of_distance_from_one() {
    let f = |t: f64| util_value(jacobian_factor(&UtilHardware, util_double(t)));
    assert_eq!(f(0.5), 2.0);
    assert_eq!(f(-0.5), 2.0);
    assert_eq!(f(0.0), 1.0);
    assert_eq!(f(0.75), 4.0);
    assert_eq!(f(1.0), f64::INFINITY);
}

#[test]
fn evaluate_applies_integrand_in_order() {
    let mut seen = Vec::new();
    let mut buf: Vec<Double> = [0.5, -0.5, 0.0, 0.75].iter().map(|x| util_double(*x)).collect();
    evaluate(
        &UtilHardware,
        &mut UtilFunc(|x: f64| {
            seen.push(x);
            x * x + 1.0
        }),
        false,
        &mut buf,
    );
    assert_eq!(seen, vec![0.5, -0.5, 0.0, 0.75]);
    let values: Vec<f64> = buf.iter().map(|y| util_value(*y)).collect();
    assert_eq!(values, vec![1.25, 1.25, 1.0, 1.5625]);
}

#[test]
fn evaluate_transforms_points_and_weights_values() {
    let mut seen = Vec::new();
    let mut buf: Vec<Double> = [0.5, -0.5, 0.0, 0.75].iter().map(|x| util_double(*x)).collect();
    evaluate(
        &UtilHardware,
        &mut UtilFunc(|x: f64| {
            seen.push(x);
            x * x + 1.0
        }),
        true,
        &mut buf,
    );
    // t goes to t / (1 - |t|), the value is weighted by 1 / (1 - |t|)^2
    assert_eq!(seen, vec![1.0, -1.0, 0.0, 3.0]);
    let values: Vec<f64> = buf.iter().map(|y| util_value(*y)).collect();
    assert_eq!(values, vec![8.0, 8.0, 1.0, 160.0]);
}

#[test]
fn results_add_part_by_part() {
    let q = |a: f64, b: f64, c: f64, d: f64| QKResult {
        estimate: util_double(a),
        delta: util_double(b),
        absvalue: util_double(c),
        asc: util_double(d),
    };
    assert_eq!(QKResult::zero(), q(0.0, 0.0, 0.0, 0.0));
    let sum = q(1.0, 0.5, 2.0, 0.25).add(&UtilHardware, &q(-3.0, 0.25, 3.0, 0.5));
    assert_eq!(sum, q(-2.0, 0.75, 5.0, 0.75));
    let mut acc = q(1.0, 0.5, 2.0, 0.25);
    acc.add_assign(&UtilHardware, &q(-3.0, 0.25, 3.0, 0.5));
    assert_eq!(acc, sum);
}
