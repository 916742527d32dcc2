use gkquad::double::algorithm::nested::{InnerIntegral, Section};
use gkquad::double::range::{Constant, RangeFn};
use gkquad::double::{Integrand2, Point2};
use gkquad::single::algorithm::QAG;
use gkquad::single::{Integrand, Points, Range};
use gkquad::{Double, Float, RuntimeError, Tolerance};

/// The arithmetic of the machine.
struct NestHardware;

fn nest_value(x: Double) -> f64 {
    f64::from_bits(x.to_bits())
}

fn nest_double(x: f64) -> Double {
    Double::from_bits(x.to_bits())
}

impl Float for NestHardware {
    fn add(&self, a: Double, b: Double) -> Double {
        nest_double(nest_value(a) + nest_value(b))
    }

    fn sub(&self, a: Double, b: Double) -> Double {
        nest_double(nest_value(a) - nest_value(b))
    }

    fn mul(&self, a: Double, b: Double) -> Double {
        nest_double(nest_value(a) * nest_value(b))
    }

    fn div(&self, a: Double, b: Double) -> Double {
        nest_double(nest_value(a) / nest_value(b))
    }
}

struct NestFunc<G: FnMut(f64, f64) -> f64>(G);

impl<G: FnMut(f64, f64) -> f64> Integrand2 for NestFunc<G> {
    fn apply(&mut self, x: Point2) -> Double {
        nest_double((self.0)(nest_value(x.0), nest_value(x.1)))
    }
}

struct NestRangeOf<G: Fn(f64) -> (f64, f64)>(G);

impl<G: Fn(f64) -> (f64, f64)> RangeFn for NestRangeOf<G> {
    fn at(&self, x: Double) -> Range {
        let (a, b) = (self.0)(nest_value(x));
        Range { begin: nest_double(a), end: nest_double(b) }
    }
}

#[test]
fn section_fixes_the_first_coordinate() {
    let mut seen: Vec<(f64, f64)> = Vec::new();
    let mut f = NestFunc(|x: f64, y: f64| {
        seen.push((x, y));
        x - 2.0 * y
    });
    let mut section = Section { f: &mut f, outer: nest_double(7.0), swap: false };
    assert_eq!(nest_value(section.apply(nest_double(1.0))), 5.0);
    assert_eq!(nest_value(section.apply(nest_double(3.0))), 1.0);
    assert_eq!(nest_value(section.outer), 7.0);
    assert!(!section.swap);
    assert_eq!(seen, vec![(7.0, 1.0), (7.0, 3.0)]);
}

#[test]
fn section_fixes_the_second_coordinate() {
    let mut seen: Vec<(f64, f64)> = Vec::new();
    let mut f = NestFunc(|x: f64, y: f64| {
        seen.push((x, y));
        x - 2.0 * y
    });
    let mut section = Section { f: &mut f, outer: nest_double(7.0), swap: true };
    assert_eq!(nest_value(section.apply(nest_double(1.0))), -13.0);
    assert!(section.swap);
    assert_eq!(seen, vec![(1.0, 7.0)]);
}

#[test]
fn inner_integral_counts_and_returns_the_estimate() {
    let mut calls = 0;
    let mut f = NestFunc(|x: f64, y: f64| {
        calls += 1;
        x * y
    });
    let range = NestRangeOf(|x: f64| (0.0, x));
    let mut inner = InnerIntegral {
        fl: &NestHardware,
        f: &mut f,
        inner_range: &range,
        swap: false,
        algorithm: QAG::new(),
        tolerance: Tolerance::default(),
        points: Points::new(),
        budget: 1000,
        nevals: 0,
        error: None,
    };
    // the integral of 2 y over y from 0 to 2
    let y = inner.apply(nest_double(2.0));
    assert!((nest_value(y) - 4.0).abs() < 1e-12);
    let first = inner.nevals;
    assert!(first > 0 && first <= 1000);
    assert_eq!(inner.error, None);
    // the integral of 3 y over y from 0 to 3
    let y = inner.apply(nest_double(3.0));
    assert!((nest_value(y) - 13.5).abs() < 1e-12);
    let counted = inner.nevals;
    assert!(counted > first && counted <= 1000);
    assert_eq!(inner.budget, 1000);
    assert_eq!(inner.error, None);
    assert_eq!(calls, counted);
}

#[test]
fn inner_integral_with_nan_range_evaluates_nothing() {
    let mut calls = 0;
    let mut f = NestFunc(|x: f64, y: f64| {
        calls += 1;
        x * y
    });
    let range = NestRangeOf(|_: f64| (0.0, f64::NAN));
    let mut inner = InnerIntegral {
        fl: &NestHardware,
        f: &mut f,
        inner_range: &range,
        swap: false,
        algorithm: QAG::new(),
        tolerance: Tolerance::default(),
        points: Points::new(),
        budget: 1000,
        nevals: 5,
        error: None,
    };
    let y = inner.apply(nest_double(2.0));
    assert!(nest_value(y).is_nan());
    assert_eq!(inner.nevals, 5);
    assert_eq!(inner.error, Some(RuntimeError::NanValueEncountered));
    assert_eq!(calls, 0);
}

#[test]
fn inner_integral_keeps_the_first_error() {
    let mut calls = 0;
    let mut f = NestFunc(|x: f64, y: f64| {
        calls += 1;
        x * y
    });
    let range = Constant { range: Range::new(nest_double(0.0), nest_double(1.0)).unwrap() };
    let mut inner = InnerIntegral {
        fl: &NestHardware,
        f: &mut f,
        inner_range: &range,
        swap: false,
        algorithm: QAG::new(),
        tolerance: Tolerance::default(),
        points: Points::new(),
        budget: 1000,
        nevals: 40,
        error: Some(RuntimeError::Divergent),
    };
    // after an error an inner integration is allowed no evaluation
    let y = inner.apply(nest_double(2.0));
    assert!(nest_value(y).is_nan());
    assert_eq!(inner.nevals, 40);
    assert_eq!(inner.error, Some(RuntimeError::Divergent));
    assert_eq!(calls, 0);
}

#[test]
fn inner_integral_stays_within_its_budget() {
    let mut calls = 0;
    let mut f = NestFunc(|x: f64, y: f64| {
        calls += 1;
        (x * y).sqrt()
    });
    let range = Constant { range: Range::new(nest_double(0.0), nest_double(1.0)).unwrap() };
    let mut inner = InnerIntegral {
        fl: &NestHardware,
        f: &mut f,
        inner_range: &range,
        swap: true,
        algorithm: QAG::new(),
        tolerance: Tolerance::default(),
        points: Points::new(),
        budget: 30,
        nevals: 0,
        error: None,
    };
    let y = inner.apply(nest_double(2.0));
    assert!(nest_value(y).is_nan());
    assert!(inner.nevals <= 30);
    assert_eq!(inner.error, Some(RuntimeError::InsufficientIteration));
    let counted = inner.nevals;
    assert_eq!(calls, counted);
}
