use gkquad::single::algorithm::qag::{refine, Bisection, Refined};
use gkquad::single::algorithm::search::{begin, halve, turn_p, turn_s, Halved, Turn};
use gkquad::single::algorithm::{Algorithm, QAG, QAGS};
use gkquad::single::{Integrand, IntegrationConfig, Points, QKResult, Range, SubRangeInfo, WorkSpace};
use gkquad::{Double, Float, RuntimeError, Tolerance};

/// The arithmetic of the machine.
struct StepHardware;

fn step_value(x: Double) -> f64 {
    f64::from_bits(x.to_bits())
}

fn step_double(x: f64) -> Double {
    Double::from_bits(x.to_bits())
}

impl Float for StepHardware {
    fn add(&self, a: Double, b: Double) -> Double {
        step_double(step_value(a) + step_value(b))
    }

    fn sub(&self, a: Double, b: Double) -> Double {
        step_double(step_value(a) - step_value(b))
    }

    fn mul(&self, a: Double, b: Double) -> Double {
        step_double(step_value(a) * step_value(b))
    }

    fn div(&self, a: Double, b: Double) -> Double {
        step_double(step_value(a) / step_value(b))
    }
}

struct StepFunc<G: FnMut(f64) -> f64>(G);

impl<G: FnMut(f64) -> f64> Integrand for StepFunc<G> {
    fn apply(&mut self, x: Double) -> Double {
        step_double((self.0)(step_value(x)))
    }
}

fn step_range(a: f64, b: f64) -> Range {
    Range::new(step_double(a), step_double(b)).unwrap()
}

fn step_result(estimate: f64, delta: f64, asc: f64) -> QKResult {
    QKResult {
        estimate: step_double(estimate),
        delta: step_double(delta),
        absvalue: step_double(estimate.abs()),
        asc: step_double(asc),
    }
}

fn step_config(tolerance: f64) -> IntegrationConfig {
    IntegrationConfig {
        tolerance: Tolerance::Absolute(step_double(tolerance)),
        max_evals: 2000,
        points: Points::new(),
    }
}

fn step_workspace(estimate: f64, delta: f64) -> WorkSpace {
    let mut ws = WorkSpace::new();
    ws.push(SubRangeInfo::new(step_range(0.0, 1.0), step_double(estimate), step_double(delta), 0));
    ws
}

fn step_state(area: f64, deltasum: f64) -> Bisection {
    Bisection {
        area: step_double(area),
        deltasum: step_double(deltasum),
        type1: 0,
        type2: 0,
        nevals: 17,
    }
}

#[test]
fn refine_ends_on_nan() {
    let mut ws = step_workspace(10.0, 1.0);
    let (out, _) = refine(
        &StepHardware,
        &mut ws,
        step_state(10.0, 1.0),
        step_range(0.0, 0.5),
        step_range(0.5, 1.0),
        step_result(f64::NAN, 0.1, 1.0),
        step_result(5.0, 0.2, 1.0),
        &step_config(0.5),
    );
    assert_eq!(out, Refined::Nan);
    assert_eq!(ws.size(), 1);
    assert_eq!(step_value(ws.subranges[0].estimate), 10.0);
}

#[test]
fn refine_keeps_halves_and_reports_convergence() {
    let mut ws = step_workspace(10.0, 1.0);
    let (out, h) = refine(
        &StepHardware,
        &mut ws,
        step_state(10.0, 1.0),
        step_range(0.0, 0.5),
        step_range(0.5, 1.0),
        step_result(4.0, 0.125, 1.0),
        step_result(5.0, 0.25, 1.0),
        &step_config(0.5),
    );
    assert_eq!(step_value(h.area12), 9.0);
    assert_eq!(step_value(h.delta12), 0.375);
    assert_eq!(step_value(h.deltasum), 0.375);
    assert_eq!(step_value(h.area), 9.0);
    assert_eq!(step_value(h.tolerance), 0.5);
    match out {
        Refined::Kept(next, met) => {
            assert!(met);
            assert_eq!(step_value(next.area), 9.0);
            assert_eq!(step_value(next.deltasum), 0.375);
            assert_eq!(next.nevals, 67);
            // the drift of 1 is more than the slack: not stalled
            assert_eq!((next.type1, next.type2), (0, 1));
        },
        _ => panic!("the halves are kept"),
    }
    // the half with the larger error estimate takes the place of the record
    assert_eq!(ws.size(), 2);
    assert_eq!(step_value(ws.subranges[0].estimate), 5.0);
    assert_eq!(step_value(ws.subranges[1].estimate), 4.0);
    assert_eq!(ws.subranges[0].level, 1);
    assert_eq!(ws.order, vec![0, 1]);
}

#[test]
fn refine_goes_on_above_the_tolerance() {
    let mut ws = step_workspace(10.0, 1.0);
    let (out, _) = refine(
        &StepHardware,
        &mut ws,
        step_state(10.0, 1.0),
        step_range(0.0, 0.5),
        step_range(0.5, 1.0),
        step_result(4.0, 0.125, 1.0),
        step_result(5.0, 0.25, 1.0),
        &step_config(0.25),
    );
    match out {
        Refined::Kept(_, met) => assert!(!met),
        _ => panic!("the halves are kept"),
    }
    assert_eq!(ws.size(), 2);
}

#[test]
fn refine_fails_on_halves_too_narrow() {
    let mut ws = step_workspace(10.0, 1.0);
    let (out, h) = refine(
        &StepHardware,
        &mut ws,
        step_state(10.0, 1.0),
        step_range(1.0, 1.0),
        step_range(1.0, 1.0),
        step_result(4.0, 0.125, 1.0),
        step_result(5.0, 0.25, 1.0),
        &step_config(0.25),
    );
    assert!(h.narrow);
    match out {
        Refined::Failed(res) => {
            assert_eq!(res.error, Some(RuntimeError::SubrangeTooSmall));
            // the sum of the estimates, the halves in place of the subrange
            assert_eq!(step_value(res.value.estimate), 9.0);
            assert_eq!(step_value(res.value.delta), 0.375);
            assert_eq!(res.value.nevals, 67);
        },
        _ => panic!("the integration fails"),
    }
    assert_eq!(ws.size(), 1);
}

#[test]
fn refine_fails_on_too_much_roundoff() {
    let mut ws = step_workspace(9.0, 0.375);
    let mut st = step_state(9.0, 0.375);
    st.type1 = 5;
    // the halves change neither the estimate nor the error estimate
    let (out, _) = refine(
        &StepHardware,
        &mut ws,
        st,
        step_range(0.0, 0.5),
        step_range(0.5, 1.0),
        step_result(4.0, 0.125, 1.0),
        step_result(5.0, 0.25, 1.0),
        &step_config(0.25),
    );
    match out {
        Refined::Failed(res) => assert_eq!(res.error, Some(RuntimeError::RoundoffError)),
        _ => panic!("the integration fails"),
    }
}

#[test]
fn begin_sets_up_the_search() {
    let st = begin(step_double(3.0), step_double(0.5), step_double(0.25), step_double(0.125), 42);
    assert_eq!(step_value(st.area), 3.0);
    assert_eq!(step_value(st.errsum), 0.5);
    assert_eq!(step_value(st.res_ext), 3.0);
    assert_eq!(step_value(st.err_ext), f64::MAX);
    assert_eq!(step_value(st.error_over_large_ranges), 0.25);
    assert_eq!(step_value(st.ertest), 0.125);
    assert_eq!(st.table.n, 1);
    assert_eq!(step_value(st.table.rlist2[0]), 3.0);
    assert_eq!(st.nevals, 42);
    assert_eq!(st.bisections, 0);
    assert_eq!(st.error, None);
    assert!(!st.extrapolate && !st.disallow_extrapolation && !st.error2);
}

#[test]
fn halve_ends_within_the_tolerance() {
    let mut ws = step_workspace(10.0, 1.0);
    let mut st = begin(step_double(10.0), step_double(1.0), step_double(0.0), step_double(0.0), 17);
    let (out, h) = halve(
        &StepHardware,
        &mut ws,
        &mut st,
        step_range(0.0, 0.5),
        step_range(0.5, 1.0),
        step_result(4.0, 0.125, 1.0),
        step_result(5.0, 0.25, 1.0),
        &step_config(0.5),
        1,
    );
    assert_eq!(step_value(h.errsum), 0.375);
    match out {
        Halved::Done(res) => {
            assert_eq!(res.error, None);
            assert_eq!(step_value(res.value.estimate), 9.0);
            assert_eq!(step_value(res.value.delta), 0.375);
            assert_eq!(res.value.nevals, 67);
        },
        _ => panic!("the tolerance is met"),
    }
    assert_eq!(ws.size(), 1);
    assert_eq!(st.bisections, 0);
}

#[test]
fn halve_keeps_halves_above_the_tolerance() {
    let mut ws = step_workspace(10.0, 1.0);
    let mut st = begin(step_double(10.0), step_double(1.0), step_double(0.0), step_double(0.0), 17);
    let (out, h) = halve(
        &StepHardware,
        &mut ws,
        &mut st,
        step_range(0.0, 0.5),
        step_range(0.5, 1.0),
        step_result(4.0, 0.125, 1.0),
        step_result(5.0, 0.25, 1.0),
        &step_config(0.25),
        1,
    );
    assert_eq!(out, Halved::Kept);
    assert!(!h.narrow);
    assert_eq!(ws.size(), 2);
    assert_eq!(st.bisections, 1);
    assert_eq!(st.nevals, 67);
    assert_eq!(step_value(st.area), 9.0);
    assert_eq!(step_value(st.errsum), 0.375);
    assert_eq!(st.error, None);
}

#[test]
fn halve_ends_on_nan() {
    let mut ws = step_workspace(10.0, 1.0);
    let mut st = begin(step_double(10.0), step_double(1.0), step_double(0.0), step_double(0.0), 17);
    let (out, _) = halve(
        &StepHardware,
        &mut ws,
        &mut st,
        step_range(0.0, 0.5),
        step_range(0.5, 1.0),
        step_result(4.0, 0.125, 1.0),
        step_result(f64::NAN, 0.25, 1.0),
        &step_config(0.25),
        1,
    );
    assert_eq!(out, Halved::Nan);
    assert_eq!(ws.size(), 1);
    assert_eq!(st.nevals, 17);
    assert_eq!(st.bisections, 0);
}

fn step_kept() -> (WorkSpace, gkquad::single::algorithm::search::Search, gkquad::single::algorithm::search::Sums) {
    let mut ws = step_workspace(10.0, 1.0);
    let mut st = begin(step_double(10.0), step_double(1.0), step_double(0.0), step_double(0.0), 17);
    let (out, h) = halve(
        &StepHardware,
        &mut ws,
        &mut st,
        step_range(0.0, 0.5),
        step_range(0.5, 1.0),
        step_result(4.0, 0.125, 1.0),
        step_result(5.0, 0.25, 1.0),
        &step_config(0.25),
        1,
    );
    assert_eq!(out, Halved::Kept);
    (ws, st, h)
}

#[test]
fn turn_stops_after_an_error() {
    let (mut ws, mut st, h) = step_kept();
    st.error = Some(RuntimeError::SubrangeTooSmall);
    let (turn, _) = turn_s(&StepHardware, &mut ws, &mut st, &h, step_double(1.0), 1, &step_config(0.25));
    assert_eq!(turn, Turn::Stop);
    assert_eq!(st.error, Some(RuntimeError::SubrangeTooSmall));
    assert_eq!(st.table.n, 1);
}

#[test]
fn turn_after_the_second_bisection_sets_up_the_extrapolation() {
    let (mut ws, mut st, h) = step_kept();
    st.bisections = 2;
    let (turn, t) = turn_s(&StepHardware, &mut ws, &mut st, &h, step_double(1.0), 1, &step_config(0.25));
    assert_eq!(turn, Turn::GoOn);
    assert_eq!(st.table.n, 2);
    assert_eq!(t.appended.n, 2);
    assert_eq!(step_value(st.table.rlist2[1]), 9.0);
    assert_eq!(step_value(st.error_over_large_ranges), 0.375);
    assert_eq!(step_value(st.ertest), 0.25);
}

#[test]
fn turn_without_extrapolation_goes_on() {
    let (mut ws, mut st, h) = step_kept();
    st.disallow_extrapolation = true;
    let (turn, _) = turn_s(&StepHardware, &mut ws, &mut st, &h, step_double(1.0), 1, &step_config(0.25));
    assert_eq!(turn, Turn::GoOn);
    assert_eq!(st.table.n, 1);
    assert_eq!((ws.nrmax, ws.i), (0, 0));
}

#[test]
fn turn_with_points_stops_at_the_last_bisection() {
    let (mut ws, mut st, h) = step_kept();
    let (turn, _) = turn_p(
        &StepHardware,
        &mut ws,
        &mut st,
        &h,
        step_double(1.0),
        1,
        true,
        &step_config(0.25),
    );
    assert_eq!(turn, Turn::Stop);
    assert_eq!(st.error, Some(RuntimeError::InsufficientIteration));
}

#[test]
fn turn_with_points_fills_the_table_before_extrapolating() {
    let (mut ws, mut st, h) = step_kept();
    let (turn, t) = turn_p(
        &StepHardware,
        &mut ws,
        &mut st,
        &h,
        step_double(1.0),
        1,
        false,
        &step_config(0.25),
    );
    // both halves are of the smallest size: the sum enters the table, which
    // then holds two elements, too few to extrapolate from
    assert_eq!(turn, Turn::GoOn);
    assert_eq!(t.appended.n, 2);
    assert_eq!(st.table.n, 2);
    assert!(!st.extrapolate);
    assert_eq!(step_value(st.error_over_large_ranges), 0.375);
    assert_eq!(ws.nrmax, 0);
    assert_eq!(ws.i, ws.order[0]);
}

#[test]
fn workspace_reserves_no_more_than_its_limit() {
    let ws = WorkSpace::with_capacity(usize::MAX);
    assert_eq!(ws.size(), 0);
    let mut ws = WorkSpace::new();
    ws.reserve(usize::MAX);
    assert_eq!(ws.size(), 0);
}

#[test]
fn largest_budget_is_no_fault() {
    let config = IntegrationConfig {
        tolerance: Tolerance::Absolute(step_double(1e-10)),
        max_evals: usize::MAX,
        points: Points::new(),
    };
    let mut qag = QAG::new();
    let res = qag.integrate(&StepHardware, &mut StepFunc(|x: f64| x.exp()), &step_range(0.0, 1.0), &config);
    assert_eq!(res.error, None);
    assert!((step_value(res.value.estimate) - (1f64.exp() - 1.0)).abs() < 1e-10);
    let mut qags = QAGS::new();
    let res = qags.integrate(
        &StepHardware,
        &mut StepFunc(|x: f64| x.sqrt()),
        &step_range(0.0, 1.0),
        &config,
    );
    assert_eq!(res.error, None);
    assert!((step_value(res.value.estimate) - 2.0 / 3.0).abs() < 1e-9);
}

fn step_table(elements: &[f64]) -> gkquad::single::ExtrapolationTable {
    let mut table = gkquad::single::ExtrapolationTable::default();
    for x in elements {
        table.append(step_double(*x));
    }
    table
}

#[test]
fn entry_converges_where_three_elements_agree() {
    // the places 0, 1 and 4 hold e0, e1 and e2
    let mut table = step_table(&[1.0, 1.0, 7.0, 7.0, 1.0]);
    let mut result = step_double(0.0);
    let mut abserr = step_double(f64::MAX);
    let (out, d) = table.entry(&StepHardware, 2, &mut result, &mut abserr);
    assert_eq!(out, gkquad::single::qelg::Entered::Converged);
    assert_eq!(step_value(d.delta2), 0.0);
    assert_eq!(step_value(d.delta3), 0.0);
    assert_eq!(step_value(result), 1.0);
    assert_eq!(step_value(abserr), 5.0 * f64::EPSILON);
    // the table stays as it was
    assert_eq!(step_value(table.rlist2[2]), 7.0);
}

#[test]
fn entry_cuts_the_table_short_where_two_elements_are_close() {
    // e0 = 1, e1 = 2, e3 = 2, e2 = 4: e1 and e3 are equal
    let mut table = step_table(&[1.0, 2.0, 2.0, 9.0, 4.0]);
    let mut result = step_double(3.0);
    let mut abserr = step_double(0.5);
    let (out, d) = table.entry(&StepHardware, 2, &mut result, &mut abserr);
    assert_eq!(out, gkquad::single::qelg::Entered::CutShort);
    assert_eq!(step_value(d.delta1), 0.0);
    assert_eq!(step_value(result), 3.0);
    assert_eq!(step_value(abserr), 0.5);
    // e1 has moved to the place
    assert_eq!(step_value(table.rlist2[2]), 2.0);
}

#[test]
fn entry_enters_the_new_element_of_a_regular_table() {
    // e0 = 1, e1 = 2, e3 = 0, e2 = 4
    let mut table = step_table(&[1.0, 2.0, 0.0, 9.0, 4.0]);
    let mut result = step_double(3.0);
    let mut abserr = step_double(f64::MAX);
    let (out, d) = table.entry(&StepHardware, 2, &mut result, &mut abserr);
    // delta1 = 2, delta2 = 2, delta3 = 1: ss = 1/2 + 1/2 - 1 = 0, which is
    // irregular
    assert_eq!(out, gkquad::single::qelg::Entered::CutShort);
    assert_eq!(step_value(d.ss), 0.0);
    assert_eq!(step_value(table.rlist2[2]), 2.0);
    let mut table = step_table(&[0.0, 2.0, 0.0, 9.0, 4.0]);
    let mut result = step_double(3.0);
    let mut abserr = step_double(f64::MAX);
    let (out, d) = table.entry(&StepHardware, 2, &mut result, &mut abserr);
    assert_eq!(out, gkquad::single::qelg::Entered::Entered);
    // delta1 = 2, delta2 = 2, delta3 = 2: ss = 1/2, and the new element is
    // e1 + 2 = 4
    assert_eq!(step_value(d.ss), 0.5);
    assert_eq!(step_value(d.res), 4.0);
    assert_eq!(step_value(table.rlist2[2]), 4.0);
    // its error estimate is |delta2| + |res - e2| + |delta3| = 2 + 0 + 2
    assert_eq!(step_value(d.error), 4.0);
    assert_eq!(step_value(result), 4.0);
    assert_eq!(step_value(abserr), 4.0);
}

#[test]
fn sort_results_orders_ties_by_selection() {
    let mut ws = WorkSpace::new();
    for k in 0..3 {
        ws.push(SubRangeInfo::new(step_range(0.0, 1.0), step_double(k as f64), step_double(1.0), 0));
    }
    ws.sort_results();
    // among equal error estimates the later position is chosen
    assert_eq!(ws.order, vec![2, 0, 1]);
    assert_eq!(ws.i, 2);
}

#[test]
fn sort_results_with_a_nan_follows_the_selection() {
    let mut ws = WorkSpace::new();
    let deltas = [1.0, f64::NAN, 3.0, 2.0];
    for d in deltas.iter() {
        ws.push(SubRangeInfo::new(step_range(0.0, 1.0), step_double(0.0), step_double(*d), 0));
    }
    ws.sort_results();
    // a NaN is never chosen over another, nor another over it
    let mut order: Vec<usize> = vec![0, 1, 2, 3];
    for i in 0..4 {
        let mut p = i;
        for j in i + 1..4 {
            if deltas[order[j]] >= deltas[order[p]] {
                p = j;
            }
        }
        order.swap(i, p);
    }
    assert_eq!(ws.order, order);
}

#[test]
fn insertion_lands_a_point_below_its_equals() {
    let zeros = vec![step_double(0.0), step_double(-0.0), step_double(1.0), step_double(-0.0)];
    let mut points = Points::from_vec(&zeros);
    gkquad::single::points::insert_sort(&mut points, 0, false);
    let bits: Vec<u64> = points.to_vec().iter().map(|x| x.to_bits()).collect();
    // a zero that comes later lands below the zeros before it
    assert_eq!(bits, vec![(-0.0f64).to_bits(), (-0.0f64).to_bits(), 0.0f64.to_bits(), 1.0f64.to_bits()]);

    let mut points = Points::from_vec(&zeros);
    gkquad::single::points::insert_sort(&mut points, 1, true);
    let bits: Vec<u64> = points.to_vec().iter().map(|x| x.to_bits()).collect();
    // the first point stays; in descending order 1 comes first
    assert_eq!(bits, vec![0.0f64.to_bits(), 1.0f64.to_bits(), (-0.0f64).to_bits(), (-0.0f64).to_bits()]);
}
