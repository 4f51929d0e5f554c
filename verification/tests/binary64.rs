use wl_gammarelay::binary64::{Binary64, INFINITY_BITS, ONE_BITS, SIGN_BIT, TENTH_BITS, ZERO_BITS};

fn b(x: f64) -> Binary64 {
    Binary64::from_bits(x.to_bits())
}

fn samples() -> Vec<f64> {
    vec![
        0.0,
        -0.0,
        0.1,
        -0.1,
        0.05,
        0.099999999999999,
        0.10000000000000002,
        0.5,
        1.0,
        -1.0,
        1.0000000000000002,
        0.9999999999999999,
        2.0,
        100.0,
        -100.0,
        1e-310,
        -1e-310,
        5e-324,
        f64::MIN_POSITIVE,
        f64::MAX,
        f64::MIN,
        f64::INFINITY,
        f64::NEG_INFINITY,
        f64::NAN,
        -f64::NAN,
        f64::from_bits(0x7ff0_0000_0000_0001),
        f64::from_bits(0xfff8_0000_0000_0000),
    ]
}

#[test]
fn constants_are_the_bit_patterns_of_their_numbers() {
    assert_eq!(ZERO_BITS, 0.0f64.to_bits());
    assert_eq!(TENTH_BITS, 0.1f64.to_bits());
    assert_eq!(ONE_BITS, 1.0f64.to_bits());
    assert_eq!(INFINITY_BITS, f64::INFINITY.to_bits());
    assert_eq!(SIGN_BIT, (-0.0f64).to_bits());
    assert_eq!(Binary64::zero().to_bits(), 0.0f64.to_bits());
    assert_eq!(Binary64::tenth().to_bits(), 0.1f64.to_bits());
    assert_eq!(Binary64::one().to_bits(), 1.0f64.to_bits());
}

#[test]
fn is_nan_agrees_with_the_hardware() {
    for x in samples() {
        assert_eq!(b(x).is_nan(), x.is_nan(), "{x:?}");
    }
}

#[test]
fn order_agrees_with_the_hardware() {
    for x in samples() {
        for y in samples() {
            assert_eq!(b(x).lt(b(y)), x < y, "{x:?} < {y:?}");
            assert_eq!(b(x).le(b(y)), x <= y, "{x:?} <= {y:?}");
            assert_eq!(b(x).equals(b(y)), x == y, "{x:?} == {y:?}");
        }
    }
}

#[test]
fn the_two_zeros_are_equal_but_not_the_same_bits() {
    assert!(b(0.0).equals(b(-0.0)));
    assert_ne!(b(0.0), b(-0.0));
    assert!(!b(f64::NAN).equals(b(f64::NAN)));
}

#[test]
fn clamp_agrees_with_the_hardware() {
    for x in samples() {
        let got = b(x).clamp(b(0.0), b(1.0));
        let want = x.clamp(0.0, 1.0);
        assert_eq!(got.to_bits(), want.to_bits(), "{x:?}");
    }
}

#[test]
fn at_least_agrees_with_the_hardware() {
    for x in samples() {
        let got = b(x).at_least(b(0.1));
        let want = x.max(0.1);
        assert_eq!(got.to_bits(), want.to_bits(), "{x:?}");
    }
}

#[test]
fn clamp_exact_values() {
    assert_eq!(b(1.5).clamp(b(0.0), b(1.0)), b(1.0));
    assert_eq!(b(-0.5).clamp(b(0.0), b(1.0)), b(0.0));
    assert_eq!(b(0.25).clamp(b(0.0), b(1.0)), b(0.25));
    assert_eq!(b(0.05).at_least(b(0.1)), b(0.1));
    assert_eq!(b(2.2).at_least(b(0.1)), b(2.2));
    assert_eq!(b(f64::NAN).at_least(b(0.1)), b(0.1));
}
