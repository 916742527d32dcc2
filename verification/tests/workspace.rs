use gkquad::single::{Range, SubRangeInfo, WorkSpace};
use gkquad::{Double, Float};

/// The arithmetic of the machine.
struct WsHardware;

fn ws_value(x: Double) -> f64 {
    f64::from_bits(x.to_bits())
}

fn ws_double(x: f64) -> Double {
    Double::from_bits(x.to_bits())
}

impl Float for WsHardware {
    fn add(&self, a: Double, b: Double) -> Double {
        ws_double(ws_value(a) + ws_value(b))
    }

    fn sub(&self, a: Double, b: Double) -> Double {
        ws_double(ws_value(a) - ws_value(b))
    }

    fn mul(&self, a: Double, b: Double) -> Double {
        ws_double(ws_value(a) * ws_value(b))
    }

    fn div(&self, a: Double, b: Double) -> Double {
        ws_double(ws_value(a) / ws_value(b))
    }
}


fn ws_record(delta: f64, level: usize) -> SubRangeInfo {
    SubRangeInfo::new(
        Range::new(ws_double(0.0), ws_double(1.0)).unwrap(),
        ws_double(10.0 * delta),
        ws_double(delta),
        level,
    )
}

fn ws_deltas(ws: &WorkSpace) -> Vec<f64> {
    ws.order.iter().map(|&k| ws_value(ws.subranges[k].delta)).collect()
}

fn ws_assert_invariant(ws: &WorkSpace) {
    let n = ws.size();
    assert_eq!(ws.order.len(), n);
    let mut seen = vec![false; n];
    for &k in &ws.order {
        assert!(k < n);
        assert!(!seen[k]);
        seen[k] = true;
    }
    let deltas = ws_deltas(ws);
    for pair in deltas.windows(2) {
        assert!(pair[0] >= pair[1]);
    }
    let largest = ws.subranges.iter().map(|s| ws_value(s.delta)).fold(f64::MIN, f64::max);
    assert_eq!(deltas[0], largest);
}

#[test]
fn new_workspace_is_empty() {
    for ws in [WorkSpace::new(), WorkSpace::with_capacity(50), WorkSpace::default()] {
        assert_eq!(ws.size(), 0);
        assert_eq!(ws.nrmax, 0);
        assert_eq!(ws.i, 0);
        assert_eq!(ws.maximum_level(), 0);
        assert!(ws.order.is_empty());
    }
}

#[test]
fn push_appends_record_and_index() {
    let mut ws = WorkSpace::new();
    ws.push(ws_record(3.0, 0));
    ws.push(ws_record(1.0, 0));
    assert_eq!(ws.size(), 2);
    assert_eq!(ws.order, vec![0, 1]);
    assert_eq!(ws.subranges[1], ws_record(1.0, 0));
    assert_eq!(*ws.get(), ws_record(3.0, 0));
    assert_eq!(ws.i, 0);
    assert_eq!(ws.nrmax, 0);
    assert_eq!(ws.maximum_level(), 0);
}

#[test]
fn reserve_leaves_records() {
    let mut ws = WorkSpace::new();
    ws.push(ws_record(3.0, 0));
    ws.reserve(100);
    assert_eq!(ws.size(), 1);
    assert_eq!(ws.order, vec![0]);
    assert_eq!(*ws.get(), ws_record(3.0, 0));
}

#[test]
fn clear_resets_everything() {
    let mut ws = WorkSpace::new();
    ws.push(ws_record(3.0, 0));
    ws.update(ws_record(1.0, 1), ws_record(2.0, 1));
    ws.clear();
    assert_eq!(ws.size(), 0);
    assert!(ws.order.is_empty());
    assert_eq!((ws.nrmax, ws.i, ws.maximum_level()), (0, 0, 0));
}

#[test]
fn update_keeps_larger_child_in_place() {
    let mut ws = WorkSpace::new();
    ws.push(ws_record(3.0, 0));
    ws.update(ws_record(1.0, 1), ws_record(2.0, 1));
    assert_eq!(ws.size(), 2);
    assert_eq!(ws.subranges[0], ws_record(2.0, 1));
    assert_eq!(ws.subranges[1], ws_record(1.0, 1));
    assert_eq!(ws.order, vec![0, 1]);
    assert_eq!(ws.maximum_level(), 1);
    assert_eq!(*ws.get(), ws_record(2.0, 1));

    // of equal children the first stays in place
    let mut ws = WorkSpace::new();
    ws.push(ws_record(3.0, 0));
    let (first, second) = (
        SubRangeInfo::new(Range::new(ws_double(0.0), ws_double(0.5)).unwrap(), ws_double(1.0), ws_double(2.0), 1),
        SubRangeInfo::new(Range::new(ws_double(0.5), ws_double(1.0)).unwrap(), ws_double(1.0), ws_double(2.0), 1),
    );
    ws.update(first, second);
    assert_eq!(ws.subranges[0], first);
    assert_eq!(ws.subranges[1], second);
}

#[test]
fn update_reorders_by_error() {
    let mut ws = WorkSpace::new();
    ws.push(ws_record(8.0, 0));
    ws.update(ws_record(5.0, 1), ws_record(3.0, 1)); // records 0: 5, 1: 3
    assert_eq!(ws.order, vec![0, 1]);
    ws.update(ws_record(1.0, 2), ws_record(2.0, 2)); // 0: 2, 1: 3, 2: 1
    assert_eq!(ws.order, vec![1, 0, 2]);
    assert_eq!(ws.i, 1);
    assert_eq!(ws.maximum_level(), 2);
    ws.update(ws_record(2.5, 2), ws_record(0.5, 2)); // 1: 2.5, 3: 0.5
    assert_eq!(ws.order, vec![1, 0, 2, 3]);
    assert_eq!(ws_deltas(&ws), vec![2.5, 2.0, 1.0, 0.5]);
    assert_eq!(ws.maximum_level(), 2);
    ws.update(ws_record(0.25, 3), ws_record(0.75, 3)); // 1: 0.75, 4: 0.25
    assert_eq!(ws.order, vec![0, 2, 1, 3, 4]);
    assert_eq!(ws.i, 0);
    assert_eq!(ws.maximum_level(), 3);
    // children with a larger error than their parent stay in front
    ws.update(ws_record(7.0, 3), ws_record(9.0, 3)); // 0: 9, 5: 7
    assert_eq!(ws.order, vec![0, 5, 2, 1, 3, 4]);
    ws_assert_invariant(&ws);
}

#[test]
fn order_stays_a_sorted_permutation() {
    let mut ws = WorkSpace::with_capacity(4);
    ws.push(ws_record(1.0, 0));
    let mut state = 12345u64;
    let mut next = || {
        state = state.wrapping_mul(6364136223846793005).wrapping_add(1442695040888963407);
        ((state >> 40) % 1000) as f64 / 8.0
    };
    for _ in 0..200 {
        let level = ws.get().level + 1;
        ws.update(ws_record(next(), level), ws_record(next(), level));
        ws_assert_invariant(&ws);
        assert_eq!(ws.i, ws.order[0]);
    }
    assert_eq!(ws.size(), 201);
}

#[test]
fn update_under_raised_cursor_moves_record_up() {
    let mut ws = WorkSpace::new();
    for delta in [9.0, 7.0, 5.0, 3.0] {
        ws.push(ws_record(delta, 0));
    }
    ws.nrmax = 2;
    ws.i = ws.order[2];
    // the children of the record with error 5 have errors 8 and 1
    ws.update(ws_record(8.0, 1), ws_record(1.0, 1));
    assert_eq!(ws_deltas(&ws), vec![9.0, 8.0, 7.0, 3.0, 1.0]);
    assert_eq!(ws.nrmax, 1);
    assert_eq!(ws.i, 2);
    assert_eq!(ws.order, vec![0, 2, 1, 3, 4]);
    ws_assert_invariant(&ws);
}

#[test]
fn sort_results_orders_by_decreasing_error() {
    let mut ws = WorkSpace::new();
    for delta in [1.0, 3.0, 2.0] {
        ws.push(ws_record(delta, 0));
    }
    ws.sort_results();
    assert_eq!(ws.order, vec![1, 2, 0]);
    assert_eq!(ws.i, 1);

    let mut ws = WorkSpace::new();
    for delta in [2.0, 1.0, 3.0] {
        ws.push(ws_record(delta, 0));
    }
    ws.sort_results();
    assert_eq!(ws.order, vec![2, 0, 1]);
    assert_eq!(ws.i, 2);
    ws_assert_invariant(&ws);

    let mut ws = WorkSpace::new();
    for delta in [4.0, 6.0, 1.0, 6.0, 0.0, 9.0, 4.0] {
        ws.push(ws_record(delta, 0));
    }
    ws.sort_results();
    ws_assert_invariant(&ws);
    assert_eq!(ws.order, vec![5, 3, 1, 6, 0, 2, 4]);
    assert_eq!(ws_deltas(&ws), vec![9.0, 6.0, 6.0, 4.0, 4.0, 1.0, 0.0]);
}

#[test]
fn sort_results_on_empty_workspace_does_nothing() {
    let mut ws = WorkSpace::new();
    ws.sort_results();
    assert_eq!(ws.size(), 0);
    assert_eq!(ws.i, 0);
}

#[test]
fn increase_nrmax_finds_next_shallow_record() {
    let mut ws = WorkSpace::new();
    for (delta, level) in [(9.0, 2), (7.0, 2), (5.0, 1), (3.0, 2), (1.0, 0)] {
        ws.push(ws_record(delta, level));
    }
    ws.maximum_level = 2;
    ws.nrmax = 1;
    assert!(ws.increase_nrmax());
    assert_eq!(ws.nrmax, 2);
    assert_eq!(ws.i, 2);
    assert_eq!(*ws.get(), ws_record(5.0, 1));
    // the record under the cursor is taken again
    assert!(ws.increase_nrmax());
    assert_eq!(ws.nrmax, 2);
    ws.nrmax = 3;
    assert!(ws.increase_nrmax());
    assert_eq!((ws.nrmax, ws.i), (4, 4));
    ws.reset_nrmax();
    assert_eq!((ws.nrmax, ws.i), (0, 0));
}

#[test]
fn increase_nrmax_stops_after_last_record() {
    let mut ws = WorkSpace::new();
    for delta in [9.0, 7.0, 5.0] {
        ws.push(ws_record(delta, 3));
    }
    ws.maximum_level = 3;
    ws.nrmax = 1;
    assert!(!ws.increase_nrmax());
    assert_eq!(ws.nrmax, 3);
    assert_eq!(ws.i, 2);
    // nothing is left to look at
    ws.i = 1;
    assert!(!ws.increase_nrmax());
    assert_eq!((ws.nrmax, ws.i), (3, 1));
    ws.reset_nrmax();
    assert_eq!((ws.nrmax, ws.i), (0, 0));
}

#[test]
fn sum_results_adds_estimates_in_record_order() {
    let mut ws = WorkSpace::new();
    assert_eq!(ws.sum_results(&WsHardware).to_bits(), 0);
    let estimates = [1e16, 1.0, -1e16, 1.0];
    for e in estimates {
        ws.push(SubRangeInfo::new(
            Range::new(ws_double(0.0), ws_double(1.0)).unwrap(),
            ws_double(e),
            ws_double(0.0),
            0,
        ));
    }
    let expected = (((0.0 + 1e16) + 1.0) + -1e16) + 1.0;
    assert_eq!(ws_value(ws.sum_results(&WsHardware)), expected);
    assert_eq!(expected, 1.0);
}
