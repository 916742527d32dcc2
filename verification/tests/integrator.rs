use gkquad::single::algorithm::{Algorithm, AUTO, QAG, QAGP, QAGS, QAGP_FINITE, QAGS_FINITE, QAG_FINITE};
use gkquad::single::{integral, Integrand, IntegrationConfig, Integrator, Points, Range, WorkSpace};
use gkquad::{Double, Float, RuntimeError, Tolerance};

/// The arithmetic of the machine.
struct RunHardware;

fn run_value(x: Double) -> f64 {
    f64::from_bits(x.to_bits())
}

fn run_double(x: f64) -> Double {
    Double::from_bits(x.to_bits())
}

impl Float for RunHardware {
    fn add(&self, a: Double, b: Double) -> Double {
        run_double(run_value(a) + run_value(b))
    }

    fn sub(&self, a: Double, b: Double) -> Double {
        run_double(run_value(a) - run_value(b))
    }

    fn mul(&self, a: Double, b: Double) -> Double {
        run_double(run_value(a) * run_value(b))
    }

    fn div(&self, a: Double, b: Double) -> Double {
        run_double(run_value(a) / run_value(b))
    }
}

struct RunFunc<G: FnMut(f64) -> f64>(G);

impl<G: FnMut(f64) -> f64> Integrand for RunFunc<G> {
    fn apply(&mut self, x: Double) -> Double {
        run_double((self.0)(run_value(x)))
    }
}

fn run_range(a: f64, b: f64) -> Range {
    Range::new(run_double(a), run_double(b)).unwrap()
}

#[test]
fn default_configuration() {
    let config = IntegrationConfig::default();
    assert_eq!(config.tolerance, Tolerance::default());
    assert_eq!(config.max_evals, 2000);
    assert!(config.points.is_empty());
    assert!(config.is_wf());
}

#[test]
fn integrator_runs_with_default_algorithm() {
    let mut integrator = Integrator::new(RunFunc(|x: f64| x * x));
    let result = integrator.run(&RunHardware, &run_range(0.0, 3.0));
    assert_eq!(result.error, None);
    assert!((run_value(result.value.estimate) - 9.0).abs() < 1e-14);
    assert_eq!(result.value.nevals, 17);
    assert_eq!(integrator.get_algorithm().qagp.workspace().size(), 0);
}

#[test]
fn integrator_keeps_configuration_between_runs() {
    let exponent = std::cell::Cell::new(1);
    let mut integrator = Integrator::new(RunFunc(|x: f64| x.powi(exponent.get())))
        .tolerance(Tolerance::Relative(run_double(1e-7)))
        .max_evals(5000);
    let mut product = 1.0;
    while exponent.get() <= 10 {
        let result = integrator.run(&RunHardware, &run_range(0.0, 1.0));
        assert_eq!(result.error, None);
        product *= run_value(result.unwrap().estimate);
        exponent.set(exponent.get() + 1);
    }
    // the integral of x^m from 0 to 1 is 1 / (m + 1)
    let expected: f64 = (2..=11).map(|m| 1.0 / m as f64).product();
    assert!((product - expected).abs() <= 1e-14 * expected);
}

#[test]
fn integrator_passes_budget_and_points_on() {
    let f = |x: f64| 1.0 / x;
    let mut integrator = Integrator::with_algorithm(RunFunc(f), QAGP::new())
        .tolerance(Tolerance::Absolute(run_double(1e-10)))
        .points(&vec![run_double(0.0)])
        .max_evals(60);
    let result = integrator.run(&RunHardware, &run_range(-1.0, 1.0));
    assert!(result.value.nevals <= 60);
    assert_eq!(result.value.nevals, 50);
    let mut integrator = integrator.max_evals(2000);
    let result = integrator.run(&RunHardware, &run_range(-1.0, 1.0));
    assert_eq!(result.value.nevals, 250);
    assert_eq!(integrator.get_algorithm().workspace().order, vec![0, 1, 5, 4, 3, 2]);
    // without the point the singularity is met
    let mut integrator = integrator.points(&vec![]).algorithm(QAGS::new());
    let result = integrator.run(&RunHardware, &run_range(-1.0, 1.0));
    assert!(result.error.is_some());
}

#[test]
fn integrator_replaces_algorithm() {
    let f = |x: f64| x.powf(2.6) * (1. / x).ln();
    let mut integrator = Integrator::new(RunFunc(f))
        .tolerance(Tolerance::Absolute(run_double(1e-14)))
        .algorithm(QAG::with_workspace(WorkSpace::with_capacity(50)));
    let result = integrator.run(&RunHardware, &run_range(0.0, 1.0));
    assert_eq!(result.error, None);
    assert_eq!(result.value.nevals, 317);
    assert_eq!(integrator.get_algorithm().workspace().order, vec![0, 1, 2, 3, 4, 5, 6]);
}

#[test]
fn algorithms_reuse_given_workspace() {
    let f = |x: f64| x.powf(2.6) * (1. / x).ln();
    let config = IntegrationConfig {
        tolerance: Tolerance::Relative(run_double(1e-10)),
        max_evals: 2000,
        points: Points::new(),
    };
    let mut stale = WorkSpace::new();
    for _ in 0..5 {
        stale.push(gkquad::single::SubRangeInfo::new(
            run_range(0.0, 1.0),
            run_double(1.0),
            run_double(1.0),
            3,
        ));
    }
    let mut fresh = QAGS::new();
    let mut reused = QAGS::with_workspace(stale);
    let a = fresh.integrate(&RunHardware, &mut RunFunc(f), &run_range(0.0, 1.0), &config);
    let b = reused.integrate(&RunHardware, &mut RunFunc(f), &run_range(0.0, 1.0), &config);
    assert_eq!(a, b);
    assert_eq!(fresh.workspace().order, reused.workspace().order);
    assert_eq!(reused.workspace().size(), 3);
}

#[test]
fn finite_algorithms_agree_with_their_fronts_on_finite_ranges() {
    let f = |x: f64| (2.0f64.powf(1.3) * x.sin()).cos();
    let range = run_range(0.3, 2.71);
    let config = IntegrationConfig {
        tolerance: Tolerance::Absolute(run_double(1e-14)),
        max_evals: 2000,
        points: Points::from_vec(&vec![run_double(1.0)]),
    };
    let front = QAG::new().integrate(&RunHardware, &mut RunFunc(f), &range, &config);
    let core = QAG_FINITE::new().integrate(&RunHardware, &mut RunFunc(f), &range, &config);
    assert_eq!(front, core);
    assert_eq!(front.error, Some(RuntimeError::RoundoffError));
    let front = QAGS::new().integrate(&RunHardware, &mut RunFunc(f), &range, &config);
    let core = QAGS_FINITE::new().integrate(&RunHardware, &mut RunFunc(f), &range, &config);
    assert_eq!(front, core);
    let front = QAGP::new().integrate(&RunHardware, &mut RunFunc(f), &range, &config);
    let core = QAGP_FINITE::new().integrate(&RunHardware, &mut RunFunc(f), &range, &config);
    assert_eq!(front, core);
    let auto = AUTO::default().integrate(&RunHardware, &mut RunFunc(f), &range, &config);
    assert_eq!(auto, core);
}

#[test]
fn half_line_integrals() {
    // the integral of exp(-x) from 0 to infinity is 1
    let result = integral(&RunHardware, RunFunc(|x: f64| (-x).exp()), &run_range(0.0, f64::INFINITY));
    assert_eq!(result.error, None);
    assert!((run_value(result.value.estimate) - 1.0).abs() <= 1.49e-8);
    // and from infinity to 0 it is -1
    let back = integral(&RunHardware, RunFunc(|x: f64| (-x).exp()), &run_range(f64::INFINITY, 0.0));
    assert_eq!(run_value(back.value.estimate), -run_value(result.value.estimate));
    // with a singular point on the way
    let config = IntegrationConfig {
        tolerance: Tolerance::default(),
        max_evals: 5000,
        points: Points::from_vec(&vec![run_double(0.0)]),
    };
    let result = QAGP::new().integrate(
        &RunHardware,
        &mut RunFunc(|x: f64| (-x.abs()).exp()),
        &run_range(f64::NEG_INFINITY, f64::INFINITY),
        &config,
    );
    assert_eq!(result.error, None);
    assert!((run_value(result.value.estimate) - 2.0).abs() <= 1.49e-8);
}

#[test]
fn subrange_too_small_is_reported() {
    // a step at an irrational point cannot be resolved by bisection
    let config = IntegrationConfig {
        tolerance: Tolerance::Absolute(run_double(1e-30)),
        max_evals: 100_000,
        points: Points::new(),
    };
    let result = QAG::new().integrate(
        &RunHardware,
        &mut RunFunc(|x: f64| if x < 0.1234567 { 0.0 } else { 1.0 }),
        &run_range(0.0, 1.0),
        &config,
    );
    assert_eq!(result.error, Some(RuntimeError::SubrangeTooSmall));
    assert!((run_value(result.value.estimate) - (1.0 - 0.1234567)).abs() < 1e-12);
}
