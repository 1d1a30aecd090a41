use raytracer::double::{Double, BYTE_MAX_BITS, INFINITY_BITS, ONE_BITS, SIGN_MASK};

fn double(x: f64) -> Double {
    Double::from_bits(x.to_bits())
}

fn samples() -> Vec<f64> {
    vec![
        0.0,
        -0.0,
        5e-324,
        -5e-324,
        f64::MIN_POSITIVE,
        -f64::MIN_POSITIVE,
        2.2250738585072009e-308,
        0.001,
        0.1 + 0.2,
        0.3,
        0.5,
        0.9999999999999999,
        1.0,
        1.0000000000000002,
        -1.0,
        1.5,
        2.0,
        3.0,
        5.0,
        -5.0,
        254.99999999999997,
        255.0,
        256.0,
        1e10,
        -1e10,
        1e300,
        -1e300,
        f64::MAX,
        f64::MIN,
        f64::INFINITY,
        f64::NEG_INFINITY,
        f64::NAN,
        f64::from_bits(0xfff8_0000_0000_0000),
        f64::from_bits(0x7ff0_0000_0000_0001),
        f64::from_bits(0xffff_ffff_ffff_ffff),
    ]
}

#[test]
fn constants_are_the_patterns_of_their_numbers() {
    assert_eq!(ONE_BITS, 1.0f64.to_bits());
    assert_eq!(BYTE_MAX_BITS, 255.0f64.to_bits());
    assert_eq!(INFINITY_BITS, f64::INFINITY.to_bits());
    assert_eq!(SIGN_MASK, (-0.0f64).to_bits());
    assert_eq!(Double::zero().to_bits(), 0.0f64.to_bits());
    assert_eq!(Double::one().to_bits(), 1.0f64.to_bits());
    assert_eq!(Double::infinity().to_bits(), f64::INFINITY.to_bits());
}

#[test]
fn from_bits_and_to_bits_keep_the_pattern() {
    for x in samples() {
        assert_eq!(double(x).to_bits(), x.to_bits());
        assert_eq!(Double::from_bits(x.to_bits()).bits, x.to_bits());
    }
}

#[test]
fn is_nan_agrees_with_the_machine() {
    for x in samples() {
        assert_eq!(double(x).is_nan(), x.is_nan(), "{x:e}");
    }
    assert!(double(f64::NAN).is_nan());
    assert!(!double(f64::INFINITY).is_nan());
    assert!(!double(f64::NEG_INFINITY).is_nan());
    assert!(!double(0.0).is_nan());
}

#[test]
fn comparisons_agree_with_the_machine() {
    for x in samples() {
        for y in samples() {
            let (a, b) = (double(x), double(y));
            assert_eq!(a.lt(b), x < y, "{x:e} < {y:e}");
            assert_eq!(a.le(b), x <= y, "{x:e} <= {y:e}");
            assert_eq!(a.gt(b), x > y, "{x:e} > {y:e}");
            assert_eq!(a.ge(b), x >= y, "{x:e} >= {y:e}");
        }
    }
}

#[test]
fn the_two_zeros_compare_equal() {
    let (plus, minus) = (double(0.0), double(-0.0));
    assert!(!plus.lt(minus));
    assert!(!minus.lt(plus));
    assert!(plus.le(minus));
    assert!(minus.le(plus));
    assert!(plus != minus);
}

#[test]
fn nan_is_neither_below_nor_above_anything() {
    let nan = double(f64::NAN);
    for x in samples() {
        let a = double(x);
        assert!(!nan.lt(a) && !nan.le(a) && !nan.gt(a) && !nan.ge(a));
        assert!(!a.lt(nan) && !a.le(nan) && !a.gt(nan) && !a.ge(nan));
    }
}

#[test]
fn total_order_agrees_with_the_machine() {
    for x in samples() {
        for y in samples() {
            let (a, b) = (double(x), double(y));
            assert_eq!(a.total_lt(b), x.total_cmp(&y).is_lt(), "{x:e} before {y:e}");
        }
    }
}

#[test]
fn total_order_tells_the_zeros_and_the_nans_apart() {
    assert!(double(-0.0).total_lt(double(0.0)));
    assert!(!double(0.0).total_lt(double(-0.0)));
    assert!(double(f64::INFINITY).total_lt(double(f64::NAN)));
    assert!(double(f64::from_bits(0xfff8_0000_0000_0000)).total_lt(double(f64::NEG_INFINITY)));
    assert!(!double(1.0).total_lt(double(1.0)));
}

#[test]
fn min_agrees_with_the_machine() {
    for x in samples() {
        for y in samples() {
            let least = double(x).min(double(y));
            let expected = x.min(y);
            if x == y {
                assert!(least.to_bits() == x.to_bits() || least.to_bits() == y.to_bits());
            } else if expected.is_nan() {
                assert!(least.is_nan());
            } else {
                assert_eq!(least.to_bits(), expected.to_bits(), "min({x:e}, {y:e})");
            }
        }
    }
}

#[test]
fn min_skips_a_nan() {
    assert_eq!(double(f64::NAN).min(double(3.0)), double(3.0));
    assert_eq!(double(3.0).min(double(f64::NAN)), double(3.0));
    assert_eq!(double(5.0).min(double(3.0)), double(3.0));
    assert_eq!(double(3.0).min(double(5.0)), double(3.0));
    assert_eq!(double(-0.0).min(double(0.0)), double(-0.0));
    assert_eq!(double(0.0).min(double(-0.0)), double(0.0));
}

/// Patterns of all kinds: a plain generator, with exponents near the ends
/// and the middle of their range more often than chance would have them.
fn patterns(count: usize) -> Vec<u64> {
    let mut state: u64 = 0x9e37_79b9_7f4a_7c15;
    let mut out: Vec<u64> = Vec::new();
    while out.len() < count {
        state ^= state << 13;
        state ^= state >> 7;
        state ^= state << 17;
        let exponent: u64 = match state % 7 {
            0 => 0,
            1 => 0x7ff,
            2 => 0x3ff,
            3 => 0x3fe + (state >> 9) % 12,
            _ => (state >> 20) % 0x800,
        };
        let fraction: u64 = match (state >> 3) % 5 {
            0 => 0,
            1 => 1,
            2 => 0x000f_ffff_ffff_ffff,
            _ => (state >> 11) & 0x000f_ffff_ffff_ffff,
        };
        out.push((state & 0x8000_0000_0000_0000) | (exponent << 52) | fraction);
    }
    out
}

#[test]
fn comparisons_agree_with_the_machine_on_many_patterns() {
    let all = patterns(40_000);
    for pair in all.chunks_exact(2) {
        let (x, y) = (f64::from_bits(pair[0]), f64::from_bits(pair[1]));
        let (a, b) = (Double::from_bits(pair[0]), Double::from_bits(pair[1]));
        assert_eq!(a.is_nan(), x.is_nan());
        assert_eq!(a.lt(b), x < y, "{x:e} < {y:e}");
        assert_eq!(a.le(b), x <= y, "{x:e} <= {y:e}");
        assert_eq!(a.gt(b), x > y, "{x:e} > {y:e}");
        assert_eq!(a.ge(b), x >= y, "{x:e} >= {y:e}");
        assert_eq!(a.total_lt(b), x.total_cmp(&y).is_lt(), "{x:e} before {y:e}");
        assert_eq!(a.total_lt(a), false);
        if x != y && !x.is_nan() && !y.is_nan() {
            assert_eq!(a.min(b).to_bits(), x.min(y).to_bits(), "min({x:e}, {y:e})");
        }
    }
}
