use gkquad::single::algorithm::initial::{initial_integral, initial_step, InitialStep};
use gkquad::single::algorithm::qagp::pieces_step;
use gkquad::single::algorithm::reconcile::{distrust, diverges, finish, reconcile, Choice};
use gkquad::single::algorithm::roundoff::{bisection_stalled, Roundoff};
use gkquad::single::algorithm::QAGP_FINITE;
use gkquad::single::{Integrand, IntegrationConfig, Points, QKResult, Range, SubRangeInfo, WorkSpace};
use gkquad::{Double, Float, RuntimeError, Solution, Tolerance};

/// The arithmetic of the machine.
struct DecHardware;

fn dec_value(x: Double) -> f64 {
    f64::from_bits(x.to_bits())
}

fn dec_double(x: f64) -> Double {
    Double::from_bits(x.to_bits())
}

impl Float for DecHardware {
    fn add(&self, a: Double, b: Double) -> Double {
        dec_double(dec_value(a) + dec_value(b))
    }

    fn sub(&self, a: Double, b: Double) -> Double {
        dec_double(dec_value(a) - dec_value(b))
    }

    fn mul(&self, a: Double, b: Double) -> Double {
        dec_double(dec_value(a) * dec_value(b))
    }

    fn div(&self, a: Double, b: Double) -> Double {
        dec_double(dec_value(a) / dec_value(b))
    }
}

struct DecFunc<G: FnMut(f64) -> f64>(G);

impl<G: FnMut(f64) -> f64> Integrand for DecFunc<G> {
    fn apply(&mut self, x: Double) -> Double {
        dec_double((self.0)(dec_value(x)))
    }
}

fn dec_result(estimate: f64, delta: f64, absvalue: f64, asc: f64) -> QKResult {
    QKResult {
        estimate: dec_double(estimate),
        delta: dec_double(delta),
        absvalue: dec_double(absvalue),
        asc: dec_double(asc),
    }
}

fn dec_initial(result: QKResult, tolerance: f64, round_off: f64, max_evals: usize, rule: usize) -> InitialStep {
    initial_step(
        result,
        dec_double(tolerance),
        dec_double(round_off),
        dec_double(tolerance * 1024.),
        max_evals,
        rule,
    )
}

#[test]
fn initial_step_stops_on_nan() {
    let nan = InitialStep::Fail(RuntimeError::NanValueEncountered);
    assert_eq!(dec_initial(dec_result(f64::NAN, 0.0, 1.0, 1.0), 1.0, 0.0, 2000, 0), nan);
    assert_eq!(dec_initial(dec_result(f64::NAN, 1.0, 1.0, 1.0), 1e-9, 0.0, 0, 1), nan);
}

#[test]
fn initial_step_accepts_within_tolerance() {
    assert_eq!(dec_initial(dec_result(1.0, 1e-9, 1.0, 0.5), 1e-8, 1e-14, 2000, 0), InitialStep::Accept);
    assert_eq!(dec_initial(dec_result(1.0, 1e-8, 1.0, 0.5), 1e-8, 1e-14, 17, 1), InitialStep::Accept);
    // an error estimate of zero is accepted whatever the tolerance
    assert_eq!(dec_initial(dec_result(1.0, 0.0, 1.0, 0.0), -1.0, 1.0, 17, 0), InitialStep::Accept);
    // one that is only the deviation from the mean is not
    assert_eq!(dec_initial(dec_result(1.0, 1e-9, 1.0, 1e-9), 1e-8, 1e-14, 2000, 0), InitialStep::Raise);
}

#[test]
fn initial_step_reports_roundoff_at_the_floor() {
    let roundoff = InitialStep::Fail(RuntimeError::RoundoffError);
    assert_eq!(dec_initial(dec_result(1.0, 1e-14, 1.0, 0.5), 1e-15, 2e-14, 2000, 0), roundoff);
    assert_eq!(dec_initial(dec_result(1.0, 2e-14, 1.0, 0.5), 1e-15, 2e-14, 2000, 1), roundoff);
    assert_eq!(dec_initial(dec_result(1.0, 3e-14, 1.0, 0.5), 1e-15, 2e-14, 2000, 1), InitialStep::Refine);
}

#[test]
fn initial_step_checks_budget_for_next_rule() {
    let short = InitialStep::Fail(RuntimeError::InsufficientIteration);
    let result = dec_result(1.0, 1e-3, 1.0, 0.5);
    assert_eq!(dec_initial(result, 1e-8, 1e-14, 41, 0), short);
    assert_eq!(dec_initial(result, 1e-8, 1e-14, 42, 0), InitialStep::Refine);
    assert_eq!(dec_initial(result, 1e-8, 1e-14, 66, 1), short);
    assert_eq!(dec_initial(result, 1e-8, 1e-14, 67, 1), InitialStep::Refine);
}

#[test]
fn initial_step_raises_rule_only_when_close() {
    // 1024 times the tolerance is the limit for trying the next rule
    assert_eq!(dec_initial(dec_result(1.0, 1024e-8, 1.0, 0.5), 1e-8, 1e-14, 2000, 0), InitialStep::Raise);
    assert_eq!(dec_initial(dec_result(1.0, 1025e-8, 1.0, 0.5), 1e-8, 1e-14, 2000, 0), InitialStep::Refine);
    assert_eq!(dec_initial(dec_result(1.0, 2e-8, 1.0, 0.5), 1e-8, 1e-14, 2000, 0), InitialStep::Raise);
    assert_eq!(dec_initial(dec_result(1.0, 2e-8, 1.0, 0.5), 1e-8, 1e-14, 2000, 1), InitialStep::Refine);
}

#[test]
fn pieces_step_orders_its_tests() {
    let step = |result: QKResult, tolerance: f64, round_off: f64, remaining: usize| {
        pieces_step(result, dec_double(tolerance), dec_double(round_off), remaining)
    };
    let roundoff = InitialStep::Fail(RuntimeError::RoundoffError);
    let short = InitialStep::Fail(RuntimeError::InsufficientIteration);
    assert_eq!(step(dec_result(1.0, 1e-14, 1.0, 0.5), 1e-15, 2e-14, 1000), roundoff);
    // round-off is tested before an error estimate of zero
    assert_eq!(step(dec_result(1.0, 0.0, 1.0, 0.5), -1.0, 1.0, 1000), roundoff);
    assert_eq!(step(dec_result(1.0, 0.0, 1.0, 0.5), 1e-8, 1.0, 0), InitialStep::Accept);
    assert_eq!(step(dec_result(1.0, 1e-9, 1.0, 0.5), 1e-8, 1e-14, 0), InitialStep::Accept);
    assert_eq!(step(dec_result(1.0, 1e-9, 1.0, 1e-9), 1e-8, 1e-14, 49), short);
    assert_eq!(step(dec_result(1.0, 1e-3, 1.0, 0.5), 1e-8, 1e-14, 49), short);
    assert_eq!(step(dec_result(1.0, 1e-3, 1.0, 0.5), 1e-8, 1e-14, 50), InitialStep::Refine);
}

#[test]
fn bisection_stalled_needs_both_signs() {
    let f = |change: f64, slack: f64, delta12: f64, floor: f64| {
        bisection_stalled(dec_double(change), dec_double(slack), dec_double(delta12), dec_double(floor))
    };
    assert!(f(1e-7, 1e-6, 1.0, 0.99));
    assert!(f(-1e-6, 1e-6, 0.99, 0.99));
    assert!(!f(2e-6, 1e-6, 1.0, 0.99));
    assert!(!f(1e-7, 1e-6, 0.98, 0.99));
    assert!(!f(f64::NAN, 1e-6, 1.0, 0.99));
}

#[test]
fn roundoff_counts_by_kind() {
    let zero = Roundoff::new();
    assert_eq!(zero, Roundoff { type1: 0, type2: 0, type3: 0 });
    assert_eq!(zero.record(true, true, false, false, 3), Roundoff { type1: 1, type2: 0, type3: 0 });
    assert_eq!(zero.record(true, true, false, true, 3), Roundoff { type1: 0, type2: 1, type3: 0 });
    assert_eq!(zero.record(true, false, true, false, 11), Roundoff { type1: 0, type2: 0, type3: 1 });
    assert_eq!(zero.record(true, false, true, false, 10), zero);
    assert_eq!(zero.record(true, true, true, true, 11), Roundoff { type1: 0, type2: 1, type3: 1 });
    assert_eq!(zero.record(false, true, true, true, 11), zero);
    assert_eq!(zero.record(true, false, false, true, 11), zero);
}

#[test]
fn roundoff_thresholds() {
    assert!(!Roundoff { type1: 9, type2: 0, type3: 19 }.excessive());
    assert!(Roundoff { type1: 10, type2: 0, type3: 0 }.excessive());
    assert!(Roundoff { type1: 6, type2: 4, type3: 0 }.excessive());
    assert!(Roundoff { type1: 0, type2: 0, type3: 20 }.excessive());
    assert!(!Roundoff { type1: 9, type2: 4, type3: 0 }.doubtful());
    assert!(Roundoff { type1: 0, type2: 5, type3: 0 }.doubtful());
}

#[test]
fn distrust_chooses_between_sum_and_limit() {
    let f = |res_ext: f64, err_ext: f64, area: f64, errsum: f64, ext_ratio: f64, plain_ratio: f64| {
        distrust(
            dec_double(res_ext),
            dec_double(err_ext),
            dec_double(area),
            dec_double(errsum),
            dec_double(ext_ratio),
            dec_double(plain_ratio),
        )
    };
    // both nonzero: the relative errors decide
    assert_eq!(f(2.0, 0.3, 1.0, 0.1, 0.15, 0.1), Choice::Plain);
    assert_eq!(f(2.0, 0.1, 1.0, 0.1, 0.05, 0.1), Choice::Tested);
    assert_eq!(f(2.0, 0.2, 1.0, 0.1, 0.1, 0.1), Choice::Tested);
    // one of them zero: the absolute errors decide
    assert_eq!(f(0.0, 0.3, 1.0, 0.1, 0.0, 0.0), Choice::Plain);
    assert_eq!(f(0.0, 0.1, 1.0, 0.3, 0.0, 0.0), Choice::Tested);
    assert_eq!(f(2.0, 0.1, 0.0, 0.3, 0.0, 0.0), Choice::Extrapolated);
    assert_eq!(f(2.0, 0.4, 0.0, 0.3, 0.0, 0.0), Choice::Plain);
}

#[test]
fn diverges_on_ratio_or_error() {
    let f = |ratio: f64, errsum: f64, area: f64| {
        diverges(dec_double(ratio), dec_double(errsum), dec_double(area))
    };
    assert!(!f(1.0, 0.5, 1.0));
    assert!(!f(0.01, 0.5, -1.0));
    assert!(!f(100.0, 1.0, 1.0));
    assert!(f(0.009, 0.5, 1.0));
    assert!(f(100.5, 0.5, 1.0));
    assert!(f(-1.0, 0.5, 1.0));
    assert!(f(1.0, 1.5, -1.0));
    assert!(!f(f64::NAN, 0.5, 1.0));
}

#[test]
fn finish_builds_result() {
    let r = finish(dec_double(1.5), dec_double(0.25), 42, Some(RuntimeError::Divergent));
    assert_eq!(
        r.value,
        Solution { estimate: dec_double(1.5), delta: dec_double(0.25), nevals: 42 }
    );
    assert_eq!(r.error, Some(RuntimeError::Divergent));
    assert_eq!(finish(dec_double(1.5), dec_double(0.25), 42, None).error, None);
}

fn dec_workspace(estimates: &[f64]) -> WorkSpace {
    let mut ws = WorkSpace::new();
    for e in estimates {
        ws.push(SubRangeInfo::new(
            Range::new(dec_double(0.0), dec_double(1.0)).unwrap(),
            dec_double(*e),
            dec_double(0.0),
            0,
        ));
    }
    ws
}

fn dec_reconcile(
    ws: &WorkSpace,
    ext: (f64, f64),
    correc: f64,
    plain: (f64, f64),
    first: (f64, f64),
    error: Option<RuntimeError>,
    doubtful: bool,
) -> (f64, f64, Option<RuntimeError>) {
    let r = reconcile(
        &DecHardware,
        ws,
        dec_double(ext.0),
        dec_double(ext.1),
        dec_double(correc),
        dec_double(plain.0),
        dec_double(plain.1),
        dec_double(first.0),
        dec_double(first.1),
        77,
        error,
        doubtful,
    );
    assert_eq!(r.value.nevals, 77);
    (dec_value(r.value.estimate), dec_value(r.value.delta), r.error)
}

#[test]
fn reconcile_without_extrapolation_returns_plain_sum() {
    let ws = dec_workspace(&[1.0, 2.0, 4.0]);
    let r = dec_reconcile(&ws, (9.0, f64::MAX), 0.0, (7.5, 0.1), (7.0, 7.0), None, false);
    assert_eq!(r, (7.0, 0.1, None));
    let r = dec_reconcile(
        &ws,
        (9.0, f64::MAX),
        0.0,
        (7.5, 0.1),
        (7.0, 7.0),
        Some(RuntimeError::SubrangeTooSmall),
        true,
    );
    assert_eq!(r, (7.0, 0.1, Some(RuntimeError::SubrangeTooSmall)));
}

#[test]
fn reconcile_accepts_trusted_limit() {
    let ws = dec_workspace(&[1.0, 2.0, 4.0]);
    let r = dec_reconcile(&ws, (7.25, 1e-9), 0.5, (7.0, 0.1), (7.0, 7.0), None, false);
    assert_eq!(r, (7.25, 1e-9, None));
}

#[test]
fn reconcile_reports_divergence() {
    let ws = dec_workspace(&[1.0, 2.0, 4.0]);
    // the limit is more than a hundred times the sum
    let r = dec_reconcile(&ws, (800.0, 1e-9), 0.5, (7.0, 0.1), (7.0, 7.0), None, false);
    assert_eq!(r, (800.0, 1e-9, Some(RuntimeError::Divergent)));
    // the error of the sum exceeds its magnitude
    let r = dec_reconcile(&ws, (7.25, 1e-9), 0.5, (7.0, 8.0), (7.0, 7.0), None, false);
    assert_eq!(r, (7.25, 1e-9, Some(RuntimeError::Divergent)));
    // an error that came in is kept
    let r = dec_reconcile(
        &ws,
        (800.0, 1e-9),
        0.5,
        (7.0, 0.1),
        (7.0, 7.0),
        Some(RuntimeError::InsufficientIteration),
        false,
    );
    assert_eq!(r, (800.0, 1e-9, Some(RuntimeError::InsufficientIteration)));
}

#[test]
fn reconcile_skips_divergence_test_for_small_oscillating_integrals() {
    let ws = dec_workspace(&[1.0, 2.0, 4.0]);
    // the integrand changes sign, and both values are below a hundredth of
    // the integral of its magnitude
    let r = dec_reconcile(&ws, (0.5, 1e-9), 0.5, (0.001, 0.1), (0.001, 100.0), None, false);
    assert_eq!(r, (0.5, 1e-9, None));
    let r = dec_reconcile(&ws, (0.5, 1e-9), 0.5, (0.001, 0.1), (100.0, 100.0), None, false);
    assert_eq!(r, (0.5, 1e-9, Some(RuntimeError::Divergent)));
}

#[test]
fn reconcile_distrusts_limit_after_roundoff() {
    let ws = dec_workspace(&[1.0, 2.0, 4.0]);
    // doubtful: the error of the limit is raised by the correction, and the
    // error becomes round-off
    let r = dec_reconcile(&ws, (7.25, 0.001), 0.5, (7.0, 0.1), (7.0, 7.0), None, true);
    assert_eq!(r, (7.0, 0.1, Some(RuntimeError::RoundoffError)));
    let r = dec_reconcile(&ws, (7.25, 0.001), 0.0625, (7.0, 0.1), (7.0, 7.0), None, true);
    assert_eq!(r, (7.25, 0.0635, Some(RuntimeError::RoundoffError)));
    // an error without doubt leaves the error of the limit as it is
    let r = dec_reconcile(
        &ws,
        (7.25, 0.001),
        0.5,
        (7.0, 0.1),
        (7.0, 7.0),
        Some(RuntimeError::SubrangeTooSmall),
        false,
    );
    assert_eq!(r, (7.25, 0.001, Some(RuntimeError::SubrangeTooSmall)));
    // a sum of zero returns the limit at once
    let r = dec_reconcile(
        &ws,
        (800.0, 0.001),
        0.5,
        (0.0, 0.1),
        (7.0, 7.0),
        Some(RuntimeError::SubrangeTooSmall),
        false,
    );
    assert_eq!(r, (800.0, 0.001, Some(RuntimeError::SubrangeTooSmall)));
}

#[test]
fn initial_integral_applies_one_or_two_rules() {
    let range = Range::new(dec_double(0.0), dec_double(1.0)).unwrap();
    let config = |tolerance: f64, max_evals: usize| IntegrationConfig {
        tolerance: Tolerance::Absolute(dec_double(tolerance)),
        max_evals,
        points: Points::new(),
    };
    let floor = dec_double(50.0 * f64::EPSILON);
    let f1 = |x: f64| x.powf(2.6) * (1. / x).ln();

    let mut calls = 0;
    let mut counted = DecFunc(|x: f64| {
        calls += 1;
        x * x
    });
    let first = initial_integral(&DecHardware, &mut counted, &range, &config(1e-8, 2000), floor, false);
    assert_eq!(first.step, InitialStep::Accept);
    assert_eq!(first.solution.nevals, 17);
    assert_eq!(calls, 17);

    // within 1024 tolerances after the first rule: the second rule is tried
    let first = initial_integral(&DecHardware, &mut DecFunc(f1), &range, &config(1e-8, 2000), floor, false);
    assert_eq!(first.step, InitialStep::Refine);
    assert_eq!(first.solution.nevals, 42);
    assert_eq!(dec_value(first.solution.estimate), 7.716049381682653363E-02);
    assert_eq!(dec_value(first.absvalue), 7.716049381682653363E-02);

    // far from the tolerance: bisection starts from the first rule
    let first = initial_integral(&DecHardware, &mut DecFunc(f1), &range, &config(1e-14, 2000), floor, false);
    assert_eq!(first.step, InitialStep::Refine);
    assert_eq!(first.solution.nevals, 17);
    assert_eq!(dec_value(first.solution.estimate), 7.716049368182086032E-02);

    let first = initial_integral(&DecHardware, &mut DecFunc(f1), &range, &config(1e-8, 41), floor, false);
    assert_eq!(first.step, InitialStep::Fail(RuntimeError::InsufficientIteration));
    assert_eq!(first.solution.nevals, 17);
    let first = initial_integral(&DecHardware, &mut DecFunc(f1), &range, &config(1e-8, 66), floor, false);
    assert_eq!(first.step, InitialStep::Fail(RuntimeError::InsufficientIteration));
    assert_eq!(first.solution.nevals, 42);
}

#[test]
fn evaluate_pieces_fills_workspace() {
    let points: Vec<Double> = [0.0, 1.0, 1.0, 3.0].iter().map(|x| dec_double(*x)).collect();
    let mut algorithm = QAGP_FINITE::new();
    let mut calls = 0;
    let first = algorithm.evaluate_pieces(
        &DecHardware,
        &mut DecFunc(|x: f64| {
            calls += 1;
            2.0 * x
        }),
        &Points::from_vec(&points),
        false,
    );
    // the piece from 1 to 1 is passed over
    assert!(!first.nan);
    assert_eq!(first.nevals, 50);
    assert_eq!(calls, 50);
    assert_eq!(algorithm.workspace.size(), 2);
    assert!((dec_value(first.result0.estimate) - 9.0).abs() < 1e-14);
    assert!((dec_value(algorithm.workspace.subranges[0].estimate) - 1.0).abs() < 1e-15);
    assert!((dec_value(algorithm.workspace.subranges[1].estimate) - 8.0).abs() < 1e-14);
    assert_eq!(algorithm.workspace.order, vec![1, 0]);
    assert_eq!(algorithm.workspace.i, 1);
    let sum = dec_value(algorithm.workspace.subranges[0].delta)
        + dec_value(algorithm.workspace.subranges[1].delta);
    assert_eq!(dec_value(first.deltasum), sum);
}

#[test]
fn evaluate_pieces_stops_on_nan() {
    let points: Vec<Double> = [0.0, 1.0, 2.0, 3.0].iter().map(|x| dec_double(*x)).collect();
    let mut algorithm = QAGP_FINITE::new();
    let first = algorithm.evaluate_pieces(
        &DecHardware,
        &mut DecFunc(|x: f64| (1.5 - x).sqrt()),
        &Points::from_vec(&points),
        false,
    );
    assert!(first.nan);
    assert_eq!(first.nevals, 50);
    assert_eq!(algorithm.workspace.size(), 1);
    assert!((dec_value(first.result0.estimate) - (1.5f64.powf(1.5) - 0.5f64.powf(1.5)) / 1.5).abs() < 1e-9);
}

#[test]
fn evaluate_pieces_records_pieces_in_order() {
    let points: Vec<Double> = [0.0, 1.0, 1.0, 3.0, 4.0].iter().map(|x| dec_double(*x)).collect();
    let mut algorithm = QAGP_FINITE::new();
    let first = algorithm.evaluate_pieces(
        &DecHardware,
        &mut DecFunc(|x: f64| 2.0 * x),
        &Points::from_vec(&points),
        false,
    );
    assert!(!first.nan);
    assert_eq!(first.nevals, 75);
    let records = &algorithm.workspace.subranges;
    assert_eq!(records.len(), 3);
    let ends: Vec<(f64, f64)> =
        records.iter().map(|r| (dec_value(r.range.begin), dec_value(r.range.end))).collect();
    assert_eq!(ends, vec![(0.0, 1.0), (1.0, 3.0), (3.0, 4.0)]);
    assert!(records.iter().all(|r| r.level == 0));
    assert_eq!(algorithm.workspace.nrmax, 0);
    assert_eq!(algorithm.workspace.maximum_level, 0);
    // the sums are those of the records, added from the first to the last
    let estimate = records.iter().fold(0.0, |s, r| s + dec_value(r.estimate));
    assert_eq!(dec_value(first.result0.estimate), estimate);
    let deltasum = records.iter().fold(0.0, |s, r| s + dec_value(r.delta));
    assert_eq!(dec_value(first.deltasum), deltasum);
    // along `order` the error estimates do not increase
    let order = &algorithm.workspace.order;
    for k in 1..order.len() {
        assert!(dec_value(records[order[k - 1]].delta) >= dec_value(records[order[k]].delta));
    }
    assert_eq!(algorithm.workspace.i, order[0]);
}

#[test]
fn evaluate_pieces_without_a_piece_does_nothing() {
    let points: Vec<Double> = vec![dec_double(2.0)];
    let mut algorithm = QAGP_FINITE::new();
    let mut calls = 0;
    let first = algorithm.evaluate_pieces(
        &DecHardware,
        &mut DecFunc(|x: f64| {
            calls += 1;
            x
        }),
        &Points::from_vec(&points),
        false,
    );
    assert!(!first.nan);
    assert_eq!(first.nevals, 0);
    assert_eq!(calls, 0);
    assert_eq!(first.result0, QKResult::zero());
    assert_eq!(dec_value(first.deltasum), 0.0);
    assert_eq!(algorithm.workspace.size(), 0);
}

#[test]
fn evaluate_pieces_of_a_constant() {
    let points: Vec<Double> = [0.0, 1.0, 2.0].iter().map(|x| dec_double(*x)).collect();
    let mut algorithm = QAGP_FINITE::new();
    let first = algorithm.evaluate_pieces(
        &DecHardware,
        &mut DecFunc(|_: f64| 1.0),
        &Points::from_vec(&points),
        true,
    );
    // under the substitution the integrand is weighted by the square of the
    // Jacobian factor, which is 1 at 0 and grows without bound towards 1
    assert!(!first.nan);
    assert_eq!(first.nevals, 50);
    assert_eq!(algorithm.workspace.size(), 2);
    let records = &algorithm.workspace.subranges;
    assert_eq!(dec_value(records[0].range.begin), 0.0);
    assert_eq!(dec_value(records[0].range.end), 1.0);
    assert_eq!(dec_value(records[1].range.begin), 1.0);
    assert_eq!(dec_value(records[1].range.end), 2.0);
    assert!(dec_value(records[0].estimate) > 1.0);
    assert_eq!(
        dec_value(first.result0.estimate),
        dec_value(records[0].estimate) + dec_value(records[1].estimate)
    );
}

#[test]
fn apply_to_slice_evaluates_from_first_to_last() {
    let mut seen: Vec<f64> = Vec::new();
    let mut values = vec![dec_double(1.0), dec_double(2.0), dec_double(3.0)];
    {
        let mut f = DecFunc(|x: f64| {
            seen.push(x);
            10.0 * x
        });
        f.apply_to_slice(&mut values);
    }
    assert_eq!(seen, vec![1.0, 2.0, 3.0]);
    let values: Vec<f64> = values.iter().map(|y| dec_value(*y)).collect();
    assert_eq!(values, vec![10.0, 20.0, 30.0]);
}
