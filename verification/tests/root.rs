use gkquad::Double;

fn root_of(x: f64) -> f64 {
    f64::from_bits(Double::from_bits(x.to_bits()).sqrt().to_bits())
}

fn root_agrees(x: f64) {
    let expected = x.sqrt();
    let computed = root_of(x);
    if expected.is_nan() {
        assert!(computed.is_nan(), "sqrt({x:?})");
    } else {
        assert_eq!(computed.to_bits(), expected.to_bits(), "sqrt({x:?})");
    }
}

#[test]
fn root_of_special_values() {
    assert_eq!(root_of(0.0).to_bits(), 0.0f64.to_bits());
    assert_eq!(root_of(-0.0).to_bits(), (-0.0f64).to_bits());
    assert_eq!(root_of(f64::INFINITY), f64::INFINITY);
    assert!(root_of(f64::NEG_INFINITY).is_nan());
    assert!(root_of(f64::NAN).is_nan());
    assert!(root_of(-f64::NAN).is_nan());
    assert!(root_of(-1.0).is_nan());
    assert!(root_of(-5e-324).is_nan());
    assert!(root_of(f64::MIN).is_nan());
}

#[test]
fn root_of_exact_squares() {
    assert_eq!(root_of(1.0), 1.0);
    assert_eq!(root_of(4.0), 2.0);
    assert_eq!(root_of(9.0), 3.0);
    assert_eq!(root_of(0.25), 0.5);
    assert_eq!(root_of(2.25), 1.5);
    assert_eq!(root_of(1e300), 1e150);
    assert_eq!(root_of(144.0), 12.0);
    for k in 1..2000u64 {
        let x = k as f64;
        assert_eq!(root_of(x * x), x);
    }
}

#[test]
fn root_is_rounded_to_nearest() {
    assert_eq!(root_of(2.0), std::f64::consts::SQRT_2);
    assert_eq!(root_of(2.0), 1.4142135623730951);
    assert_eq!(root_of(3.0), 1.7320508075688772);
    assert_eq!(root_of(0.5), std::f64::consts::FRAC_1_SQRT_2);
    assert_eq!(root_of(10.0), 3.1622776601683795);
    assert_eq!(root_of(0.4), 0.6324555320336759);
}

#[test]
fn root_at_the_ends_of_the_range() {
    for x in [
        f64::MAX,
        f64::MIN_POSITIVE,
        5e-324,
        1e-323,
        1.5e-323,
        2.2250738585072009e-308,
        2.225073858507201e-308,
        4.450147717014403e-308,
        1e-310,
        1.7976931348623155e308,
        f64::EPSILON,
        1.0 - f64::EPSILON / 2.0,
        1.0 + f64::EPSILON,
        2.0 - f64::EPSILON,
        4.0 - 2.0 * f64::EPSILON,
    ] {
        root_agrees(x);
    }
}

#[test]
fn root_agrees_with_hardware_on_many_doubles() {
    let mut state = 0x9E37_79B9_7F4A_7C15u64;
    for _ in 0..200_000 {
        state ^= state << 13;
        state ^= state >> 7;
        state ^= state << 17;
        root_agrees(f64::from_bits(state));
        root_agrees(f64::from_bits(state >> 1));
        // subnormal doubles
        root_agrees(f64::from_bits(state >> 12));
        root_agrees(f64::from_bits(state >> 40));
    }
}

#[test]
fn root_agrees_with_hardware_near_powers_of_two() {
    for exponent in 0..2047u64 {
        for fraction in [0u64, 1, 2, 3, (1 << 52) - 1, (1 << 52) - 2, 1 << 51, (1 << 51) + 1, (1 << 51) - 1] {
            root_agrees(f64::from_bits((exponent << 52) | fraction));
        }
    }
}
