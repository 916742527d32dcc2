use gkquad::{Double, Float, InvalidTolerance, RuntimeError, Solution, Tolerance};

/// The arithmetic of the machine.
struct TolHardware;

fn tol_value(x: Double) -> f64 {
    f64::from_bits(x.to_bits())
}

fn tol_double(x: f64) -> Double {
    Double::from_bits(x.to_bits())
}

impl Float for TolHardware {
    fn add(&self, a: Double, b: Double) -> Double {
        tol_double(tol_value(a) + tol_value(b))
    }

    fn sub(&self, a: Double, b: Double) -> Double {
        tol_double(tol_value(a) - tol_value(b))
    }

    fn mul(&self, a: Double, b: Double) -> Double {
        tol_double(tol_value(a) * tol_value(b))
    }

    fn div(&self, a: Double, b: Double) -> Double {
        tol_double(tol_value(a) / tol_value(b))
    }
}


#[test]
fn absolute_tolerance_ignores_magnitude() {
    let t = Tolerance::Absolute(tol_double(1e-6));
    assert_eq!(tol_value(t.to_abs(&TolHardware, tol_double(123.0))), 1e-6);
    assert_eq!(tol_value(t.to_abs(&TolHardware, tol_double(f64::INFINITY))), 1e-6);
    assert_eq!(t.relative(), None);
}

#[test]
fn relative_tolerance_scales_magnitude() {
    let t = Tolerance::Relative(tol_double(1e-3));
    assert_eq!(tol_value(t.to_abs(&TolHardware, tol_double(250.0))), 250.0 * 1e-3);
    assert_eq!(t.relative(), Some(tol_double(1e-3)));
}

#[test]
fn abs_or_rel_takes_the_larger() {
    let t = Tolerance::AbsOrRel(tol_double(0.5), tol_double(0.01));
    assert_eq!(tol_value(t.to_abs(&TolHardware, tol_double(10.0))), 0.5);
    assert_eq!(tol_value(t.to_abs(&TolHardware, tol_double(100.0))), 1.0);
    assert_eq!(t.relative(), Some(tol_double(0.01)));
}

#[test]
fn abs_and_rel_takes_the_smaller() {
    let t = Tolerance::AbsAndRel(tol_double(0.5), tol_double(0.01));
    assert_eq!(tol_value(t.to_abs(&TolHardware, tol_double(10.0))), 10.0 * 0.01);
    assert_eq!(tol_value(t.to_abs(&TolHardware, tol_double(100.0))), 0.5);
}

#[test]
fn bound_combines_absolute_part_and_product() {
    let p = tol_double(0.25);
    assert_eq!(Tolerance::Absolute(tol_double(2.0)).bound(p), tol_double(2.0));
    assert_eq!(Tolerance::Relative(tol_double(2.0)).bound(p), p);
    assert_eq!(Tolerance::AbsOrRel(tol_double(2.0), tol_double(9.0)).bound(p), tol_double(2.0));
    assert_eq!(Tolerance::AbsOrRel(tol_double(0.1), tol_double(9.0)).bound(p), p);
    assert_eq!(Tolerance::AbsAndRel(tol_double(2.0), tol_double(9.0)).bound(p), p);
    assert_eq!(Tolerance::AbsAndRel(tol_double(0.1), tol_double(9.0)).bound(p), tol_double(0.1));
}

#[test]
fn abs_or_rel_is_loosest_and_abs_and_rel_tightest() {
    let values = [0.0, 1e-300, 1e-8, 0.5, 1.0, 3.0, 1e10, f64::INFINITY];
    for a in values {
        for r in values {
            for magnitude in values {
                if (magnitude * r).is_nan() {
                    continue;
                }
                let (a, r, m) = (tol_double(a), tol_double(r), tol_double(magnitude));
                let absolute = tol_value(Tolerance::Absolute(a).to_abs(&TolHardware, m));
                let relative = tol_value(Tolerance::Relative(r).to_abs(&TolHardware, m));
                let loosest = tol_value(Tolerance::AbsOrRel(a, r).to_abs(&TolHardware, m));
                let tightest = tol_value(Tolerance::AbsAndRel(a, r).to_abs(&TolHardware, m));
                assert!(loosest >= absolute && loosest >= relative);
                assert!(tightest <= absolute && tightest <= relative);
            }
        }
    }
}

#[test]
fn nan_components_are_detected() {
    let nan = tol_double(f64::NAN);
    let one = tol_double(1.0);
    assert!(Tolerance::Absolute(nan).contains_nan());
    assert!(Tolerance::Relative(nan).contains_nan());
    assert!(Tolerance::AbsOrRel(nan, one).contains_nan());
    assert!(Tolerance::AbsOrRel(one, nan).contains_nan());
    assert!(Tolerance::AbsAndRel(nan, one).contains_nan());
    assert!(Tolerance::AbsAndRel(one, nan).contains_nan());
    assert!(!Tolerance::Absolute(one).contains_nan());
    assert!(!Tolerance::Relative(one).contains_nan());
    assert!(!Tolerance::AbsOrRel(one, one).contains_nan());
    assert!(!Tolerance::AbsAndRel(one, tol_double(f64::INFINITY)).contains_nan());
}

#[test]
fn checked_tolerance_rejects_nan() {
    let nan = tol_double(f64::NAN);
    let one = tol_double(1.0);
    assert_eq!(Tolerance::Absolute(nan).checked(), Err(InvalidTolerance));
    assert_eq!(Tolerance::Relative(nan).checked(), Err(InvalidTolerance));
    assert_eq!(Tolerance::AbsOrRel(one, nan).checked(), Err(InvalidTolerance));
    assert_eq!(Tolerance::AbsAndRel(nan, one).checked(), Err(InvalidTolerance));
    assert_eq!(Tolerance::Absolute(one).checked(), Ok(Tolerance::Absolute(one)));
    assert_eq!(Tolerance::AbsOrRel(one, one).checked(), Ok(Tolerance::AbsOrRel(one, one)));
    assert_eq!(InvalidTolerance.description(), "tolerance must not contain NAN");
}

#[test]
fn default_tolerance_is_abs_or_rel() {
    assert_eq!(
        Tolerance::default(),
        Tolerance::AbsOrRel(tol_double(1.49e-8), tol_double(1.49e-8))
    );
}

#[test]
fn default_solution_has_largest_finite_error() {
    let s = Solution::default();
    assert_eq!(tol_value(s.estimate), 0.0);
    assert_eq!(tol_value(s.delta), f64::MAX);
    assert_eq!(s.nevals, 0);
}

#[test]
fn errors_describe_themselves() {
    assert_eq!(
        RuntimeError::InsufficientIteration.description(),
        "number of iteration was insufficient"
    );
    assert_eq!(
        RuntimeError::RoundoffError.description(),
        "cannot reach tolerance because of roundoff error"
    );
    assert_eq!(
        RuntimeError::SubrangeTooSmall.description(),
        "subrange is too small to calculate the integral"
    );
    assert_eq!(
        RuntimeError::Divergent.description(),
        "integral is divergent, or slowly convergent"
    );
    assert_eq!(
        RuntimeError::NanValueEncountered.description(),
        "integrand has returned a NAN value"
    );
    assert!(RuntimeError::InsufficientIteration.is_budget());
    assert!(!RuntimeError::RoundoffError.is_budget());
    assert!(!RuntimeError::SubrangeTooSmall.is_budget());
    assert!(!RuntimeError::Divergent.is_budget());
    assert!(!RuntimeError::NanValueEncountered.is_budget());
}
