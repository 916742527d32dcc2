use gkquad::double::algorithm::{Algorithm2, Described2, QAG2, QAGP2, QAGS2};
use gkquad::double::range::{DynamicY, Range2, RangeFn, Rectangle};
use gkquad::double::{Integrand2, Integrator2, Point2};
use gkquad::single::Range;
use gkquad::Tolerance::{self, Absolute, Relative};
use gkquad::{Double, Float, RuntimeError};

/// The arithmetic of the machine.
struct PlaneHardware;

fn plane_value(x: Double) -> f64 {
    f64::from_bits(x.to_bits())
}

fn plane_double(x: f64) -> Double {
    Double::from_bits(x.to_bits())
}

impl Float for PlaneHardware {
    fn add(&self, a: Double, b: Double) -> Double {
        plane_double(plane_value(a) + plane_value(b))
    }

    fn sub(&self, a: Double, b: Double) -> Double {
        plane_double(plane_value(a) - plane_value(b))
    }

    fn mul(&self, a: Double, b: Double) -> Double {
        plane_double(plane_value(a) * plane_value(b))
    }

    fn div(&self, a: Double, b: Double) -> Double {
        plane_double(plane_value(a) / plane_value(b))
    }
}

struct PlaneFunc(fn(f64, f64) -> f64);

impl Integrand2 for PlaneFunc {
    fn apply(&mut self, x: Point2) -> Double {
        plane_double((self.0)(plane_value(x.0), plane_value(x.1)))
    }
}

/// A range that a function of the other coordinate gives.
struct PlaneRangeOf(fn(f64) -> (f64, f64));

impl RangeFn for PlaneRangeOf {
    fn at(&self, x: Double) -> Range {
        let (a, b) = (self.0)(plane_value(x));
        Range::new(plane_double(a), plane_double(b)).unwrap()
    }
}

fn plane_range(a: f64, b: f64) -> Range {
    Range::new(plane_double(a), plane_double(b)).unwrap()
}

fn plane_rectangle(x1: f64, x2: f64, y1: f64, y2: f64) -> Rectangle {
    Rectangle::new(plane_double(x1), plane_double(x2), plane_double(y1), plane_double(y2)).unwrap()
}

fn plane_dynamic_y(x1: f64, x2: f64, yrange: fn(f64) -> (f64, f64)) -> DynamicY<PlaneRangeOf> {
    DynamicY::new(plane_double(x1), plane_double(x2), PlaneRangeOf(yrange)).unwrap()
}

fn plane_assert_rel(left: f64, right: f64, tolerance: f64) {
    if (right == 0.0 && left >= tolerance)
        || (right != 0.0 && (left - right).abs() / right.abs() > tolerance)
    {
        panic!("assertion failed: `(left == right)`\n  left: `{:?}`,\n right: `{:?}`", left, right);
    }
}

fn plane_g1(x: f64, y: f64) -> f64 {
    1.0 - x * y
}

fn plane_g2(x: f64, y: f64) -> f64 {
    (y / x).exp()
}

fn plane_g3(x: f64, y: f64) -> f64 {
    (0.25 - x * x - y * y).sqrt()
}

fn plane_g4(x: f64, y: f64) -> f64 {
    1.0 / (1.0 + x + y).powi(3)
}

// singular points in (0.0, 0.0)
fn plane_gp1(x: f64, y: f64) -> f64 {
    1.0 / f64::sqrt(f64::abs(x) + f64::abs(y))
}

fn plane_gp2(x: f64, y: f64) -> f64 {
    x / (x * x + y * y)
}

fn plane_gp3(x: f64, y: f64) -> f64 {
    0.5 / f64::sqrt(x * x + y * y)
}

struct PlaneExpect {
    value: f64,
    delta: f64,
    nevals: usize,
    error: Option<RuntimeError>,
}

fn plane_test_algorithm<A, R>(
    f: fn(f64, f64) -> f64,
    r: R,
    pts: &[(f64, f64)],
    algorithm: A,
    tol: Tolerance,
    expect: PlaneExpect,
) where
    R: Range2,
    A: Algorithm2<R> + Described2<PlaneHardware, PlaneFunc, R>,
{
    let points: Vec<Point2> = pts.iter().map(|p| (plane_double(p.0), plane_double(p.1))).collect();
    let mut integrator = Integrator2::with_algorithm(PlaneFunc(f), algorithm)
        .tolerance(tol)
        .max_evals(100000)
        .points(&points);

    let result = integrator.run(&PlaneHardware, &r);
    assert_eq!(result.as_ref().err(), expect.error.as_ref());

    let result = result.unwrap_unchecked();
    plane_assert_rel(plane_value(result.estimate), expect.value, 1e-15);
    plane_assert_rel(plane_value(result.delta), expect.delta, 1e-7);
    assert_eq!(result.nevals, expect.nevals);
}

#[test]
fn qag_g1() {
    let expect = PlaneExpect {
        value: 7.500000000000000000e-01,
        delta: 8.326672684688676E-15,
        nevals: 289,
        error: None,
    };
    let range = plane_rectangle(0., 1., 0., 1.);
    plane_test_algorithm(plane_g1, range, &[], QAG2::new(), Relative(plane_double(1e-10)), expect);
}

#[test]
fn qags_g1() {
    let expect = PlaneExpect {
        value: 7.500000000000000000e-01,
        delta: 8.326672684688676E-15,
        nevals: 289,
        error: None,
    };
    let range = plane_rectangle(0., 1., 0., 1.);
    plane_test_algorithm(plane_g1, range, &[], QAGS2::new(), Relative(plane_double(1e-10)), expect);
}

#[test]
fn qag_g2() {
    let expect = PlaneExpect {
        value: 8.591409142295225e-01,
        delta: 9.538380243751227E-15,
        nevals: 289,
        error: None,
    };
    let range = plane_dynamic_y(0., 1., |x| (0.0, x));
    plane_test_algorithm(plane_g2, range, &[], QAG2::new(), Relative(plane_double(1e-10)), expect);
}

#[test]
fn qags_g2() {
    let expect = PlaneExpect {
        value: 8.591409142295225e-01,
        delta: 9.538380243751227E-15,
        nevals: 289,
        error: None,
    };
    let range = plane_dynamic_y(0., 1., |x| (0.0, x));
    plane_test_algorithm(plane_g2, range, &[], QAGS2::new(), Relative(plane_double(1e-10)), expect);
}

#[test]
fn qags_g3() {
    let expect = PlaneExpect {
        value: 2.617993877991505e-01,
        delta: 2.906557081673861E-15,
        nevals: 34239,
        error: None,
    };
    let yrange = |x: f64| {
        let ymax = (0.25 - x * x).sqrt();
        (-ymax, ymax)
    };
    let range = plane_dynamic_y(-0.5, 0.5, yrange);
    plane_test_algorithm(plane_g3, range, &[], QAGS2::new(), Absolute(plane_double(1e-12)), expect);
}

#[test]
fn qag_g4() {
    let expect = PlaneExpect {
        value: 4.9999999999953537e-01,
        delta: 9.058237841799824E-13,
        nevals: 4889,
        error: None,
    };
    let range = Rectangle {
        xrange: plane_range(0.0, f64::INFINITY),
        yrange: plane_range(0.0, f64::INFINITY),
    };
    plane_test_algorithm(plane_g4, range, &[], QAG2::new(), Absolute(plane_double(1e-8)), expect);
}

#[test]
fn qags_g4() {
    let expect = PlaneExpect {
        value: 4.9999999999953537e-01,
        delta: 9.058231687644665E-13,
        nevals: 4889,
        error: None,
    };
    let range = Rectangle {
        xrange: plane_range(0.0, f64::INFINITY),
        yrange: plane_range(0.0, f64::INFINITY),
    };
    plane_test_algorithm(plane_g4, range, &[], QAGS2::new(), Absolute(plane_double(1e-8)), expect);
}

#[test]
fn qagp_gp1() {
    let expect = PlaneExpect {
        value: 4.418277998646525e+00,
        delta: 5.178080186851730e-13,
        nevals: 84700,
        error: None,
    };
    let range = plane_rectangle(-1.0, 1.0, -1.0, 1.0);
    plane_test_algorithm(plane_gp1,
        range,
        &[(0.0, 0.0)],
        QAGP2::new(),
        Relative(plane_double(1e-6)),
        expect,
    )
}

#[test]
fn qagp_gp2() {
    let expect = PlaneExpect {
        value: 0.0,
        delta: 0.0,
        nevals: 22700,
        error: None,
    };
    let yrange = |x: f64| {
        let ymax = (1.0 - x * x).sqrt();
        (-ymax, ymax)
    };
    let range = plane_dynamic_y(-1.0, 1.0, yrange);
    plane_test_algorithm(plane_gp2,
        range,
        &[(0.0, 0.0)],
        QAGP2::new(),
        Absolute(plane_double(1e-5)),
        expect,
    )
}

#[test]
fn qagp_gp3() {
    let expect = PlaneExpect {
        value: 3.1415174675291286e+00,
        delta: 8.343456282745318e-02,
        nevals: 100000,
        error: Some(RuntimeError::InsufficientIteration),
    };
    let yrange = |x: f64| {
        let ymax = (1.0 - x * x).sqrt();
        (-ymax, ymax)
    };
    let range = plane_dynamic_y(-1.0, 1.0, yrange);
    plane_test_algorithm(plane_gp3,
        range,
        &[(0.0, 0.0)],
        QAGP2::new(),
        Absolute(plane_double(1e-5)),
        expect,
    )
}
