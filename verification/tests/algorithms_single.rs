use gkquad::single::algorithm::{Algorithm, Described, QAG, QAGP, QAGS};
use gkquad::single::{Integrand, Integrator, Range, WorkSpace};
use gkquad::Tolerance::{self, Absolute, Relative};
use gkquad::{Double, Float, RuntimeError};

/// The arithmetic of the machine.
struct AlgHardware;

fn alg_value(x: Double) -> f64 {
    f64::from_bits(x.to_bits())
}

fn alg_double(x: f64) -> Double {
    Double::from_bits(x.to_bits())
}

impl Float for AlgHardware {
    fn add(&self, a: Double, b: Double) -> Double {
        alg_double(alg_value(a) + alg_value(b))
    }

    fn sub(&self, a: Double, b: Double) -> Double {
        alg_double(alg_value(a) - alg_value(b))
    }

    fn mul(&self, a: Double, b: Double) -> Double {
        alg_double(alg_value(a) * alg_value(b))
    }

    fn div(&self, a: Double, b: Double) -> Double {
        alg_double(alg_value(a) / alg_value(b))
    }
}

struct AlgFunc(fn(f64) -> f64);

impl Integrand for AlgFunc {
    fn apply(&mut self, x: Double) -> Double {
        alg_double((self.0)(alg_value(x)))
    }
}

fn alg_assert_rel(left: f64, right: f64, tolerance: f64) {
    if (right == 0.0 && left >= tolerance)
        || (right != 0.0 && (left - right).abs() / right.abs() > tolerance)
    {
        panic!("assertion failed: `(left == right)`\n  left: `{:?}`,\n right: `{:?}`", left, right);
    }
}

fn alg_tolerance(t: (bool, f64)) -> Tolerance {
    if t.0 {
        Absolute(alg_double(t.1))
    } else {
        Relative(alg_double(t.1))
    }
}

fn alg_f1(x: f64) -> f64 {
    x.powf(2.6) * (1. / x).ln()
}

// singular points on x = 0
fn alg_f2(x: f64) -> f64 {
    x.powf(-0.9) * (1. / x).ln()
}

// oscillation
fn alg_f3(x: f64) -> f64 {
    (2.0f64.powf(1.3) * x.sin()).cos()
}

fn alg_f4(x: f64) -> f64 {
    (1. / x).ln()
}

// singular points in [1.0, 2.0]
fn alg_f5(x: f64) -> f64 {
    let x2 = x * x;
    x2 * x * (((x2 - 1.) * (x2 - 2.)).abs()).ln()
}

fn alg_f6(x: f64) -> f64 {
    let x2 = x * x;
    let x3 = x2 * x;
    1.0 / (x3 - x2 + x - 1.)
}

fn alg_f7(x: f64) -> f64 {
    1. / x
}

struct AlgExpect<'a> {
    value: f64,
    delta: f64,
    order: &'a [usize],
    nevals: usize,
    error: Option<RuntimeError>,
}

fn alg_test_algorithm<A: Algorithm + Described<AlgHardware, AlgFunc>>(
    with_workspace: fn(WorkSpace) -> A,
    workspace: fn(&A) -> &WorkSpace,
    f: fn(f64) -> f64,
    a: f64,
    b: f64,
    pts: &[f64],
    tol: Tolerance,
    expect: AlgExpect,
) {
    let fl = AlgHardware;
    let points: Vec<Double> = pts.iter().map(|x| alg_double(*x)).collect();
    let algorithm = with_workspace(WorkSpace::with_capacity(50));
    let mut integrator = Integrator::with_algorithm(AlgFunc(f), algorithm)
        .tolerance(tol)
        .points(&points);
    let result = integrator.run(&fl, &Range::new(alg_double(a), alg_double(b)).unwrap());
    assert_eq!(result.as_ref().err(), expect.error.as_ref());

    let result = result.unwrap_unchecked();
    alg_assert_rel(alg_value(result.estimate), expect.value, 1e-15);
    alg_assert_rel(alg_value(result.delta), expect.delta, 1e-7);
    assert_eq!(result.nevals, expect.nevals);

    if !expect.order.is_empty() {
        assert_eq!(&workspace(integrator.get_algorithm()).order, &expect.order);
    }

    let result = integrator.run(&fl, &Range::new(alg_double(b), alg_double(a)).unwrap());
    assert_eq!(result.as_ref().err(), expect.error.as_ref());

    let result = result.unwrap_unchecked();
    alg_assert_rel(alg_value(result.estimate), -expect.value, 1e-15);
    alg_assert_rel(alg_value(result.delta), expect.delta, 1e-7);
    assert_eq!(result.nevals, expect.nevals);

    if !expect.order.is_empty() && pts.is_empty() {
        assert_eq!(&workspace(integrator.get_algorithm()).order, &expect.order);
    }
}

#[test]
fn qag_f1() {
    let expect = AlgExpect {
        value: 7.716049382716048954E-2,
        delta: 3.385161349035466596E-15,
        order: &[0, 1, 2, 3, 4, 5, 6],
        nevals: 317,
        error: None,
    };
    alg_test_algorithm(
        QAG::with_workspace,
        QAG::workspace,
        alg_f1,
        0.0,
        1.0,
        &[],
        Absolute(alg_double(1e-14)),
        expect,
    );
}

#[test]
fn qag_f3() {
    let expect = AlgExpect {
        value: -7.238969575482963E-1,
        delta: 1.285829033513453162E-14,
        order: &[1, 4, 3, 2, 5, 0, 6],
        nevals: 367,
        error: Some(RuntimeError::RoundoffError),
    };
    alg_test_algorithm(
        QAG::with_workspace,
        QAG::workspace,
        alg_f3,
        0.3,
        2.71,
        &[],
        Absolute(alg_double(1e-14)),
        expect,
    );
}

#[test]
fn algorithms_single_qags_f1() {
    let expect = AlgExpect {
        value: 7.716049382715210736E-2,
        delta: 4.281425050711728165E-12,
        order: &[0, 1, 2],
        nevals: 167,
        error: None,
    };
    alg_test_algorithm(
        QAGS::with_workspace,
        QAGS::workspace,
        alg_f1,
        0.0,
        1.0,
        &[],
        Relative(alg_double(1e-10)),
        expect,
    );
}

#[test]
fn algorithms_single_qags_f2() {
    let expect = AlgExpect {
        value: 1.000000000000036806E2,
        delta: 7.300116067199269310E-11,
        order: &[0, 15, 14, 13, 12, 11, 10, 9, 8, 7, 6, 5, 4, 3, 2, 1],
        nevals: 767,
        error: None,
    };
    alg_test_algorithm(
        QAGS::with_workspace,
        QAGS::workspace,
        alg_f2,
        0.0,
        1.0,
        &[],
        Absolute(alg_double(1e-10)),
        expect,
    );
}

#[test]
fn algorithms_single_qags_f3() {
    let expect = AlgExpect {
        value: -7.238969575482958607E-1,
        delta: 1.842466275093522320E-14,
        order: &[],
        nevals: 42,
        error: None,
    };
    alg_test_algorithm(
        QAGS::with_workspace,
        QAGS::workspace,
        alg_f3,
        0.3,
        2.71,
        &[],
        Absolute(alg_double(1e-10)),
        expect,
    );
}

#[test]
fn algorithms_single_qags_f4() {
    let expect = AlgExpect {
        value: -5.908755278982136588E3,
        delta: 3.845076707914035937E-9,
        order: &[0, 1, 2, 3, 4, 5, 6],
        nevals: 367,
        error: None,
    };
    alg_test_algorithm(
        QAGS::with_workspace,
        QAGS::workspace,
        alg_f4,
        1.0,
        1000.0,
        &[],
        Absolute(alg_double(1e-7)),
        expect,
    );
}

#[test]
fn algorithms_single_qagp_f5() {
    let expect = AlgExpect {
        value: 2.635888729963342E2,
        delta: 2.439296220664418646E-1,
        order: &[1, 5, 0, 3, 2, 7, 8, 9, 6, 4],
        nevals: 475,
        error: None,
    };
    alg_test_algorithm(
        QAGP::with_workspace,
        QAGP::workspace,
        alg_f5,
        0.,
        4.,
        &[1., 2.],
        Relative(alg_double(1e-3)),
        expect,
    );
}

#[test]
fn algorithms_single_qagp_f6() {
    let expect = AlgExpect {
        value: -9.559338370056563727E-1,
        delta: 2.436939539052218606E-13,
        order: &[0, 1, 3, 4, 6, 8, 10, 11, 9, 7, 5, 2],
        nevals: 550,
        error: Some(RuntimeError::Divergent),
    };
    alg_test_algorithm(
        QAGP::with_workspace,
        QAGP::workspace,
        alg_f6,
        0.,
        2.,
        &[1.],
        Absolute(alg_double(1e-10)),
        expect,
    );
}

#[test]
fn algorithms_single_qagp_f7() {
    let expect = AlgExpect {
        value: 0E+00,
        delta: 0E+00,
        order: &[0, 1, 5, 4, 3, 2],
        nevals: 250,
        error: None,
    };
    alg_test_algorithm(
        QAGP::with_workspace,
        QAGP::workspace,
        alg_f7,
        -1.,
        1.,
        &[0.],
        Absolute(alg_double(1e-10)),
        expect,
    );
}
