use watermill::ieee::{
    from_key, is_fraction_bits, is_nan_bits, larger, smaller, to_key, FIVE, FOUR, HALF,
    INFINITY, MINUS_ONE, ONE, THREE, TWO, ZERO,
};
use watermill::quantile::{QUARTER, THREE_QUARTERS};

fn samples() -> Vec<f64> {
    vec![
        f64::NEG_INFINITY,
        f64::MIN,
        -1e300,
        -2.5,
        -1.0,
        -f64::MIN_POSITIVE,
        -5e-324,
        -0.0,
        0.0,
        5e-324,
        f64::MIN_POSITIVE,
        0.5,
        1.0,
        1.0000000000000002,
        2.5,
        1e300,
        f64::MAX,
        f64::INFINITY,
    ]
}

#[test]
fn constants_are_the_doubles_they_name() {
    assert_eq!(ZERO, 0.0f64.to_bits());
    assert_eq!(QUARTER, 0.25f64.to_bits());
    assert_eq!(HALF, 0.5f64.to_bits());
    assert_eq!(THREE_QUARTERS, 0.75f64.to_bits());
    assert_eq!(ONE, 1.0f64.to_bits());
    assert_eq!(MINUS_ONE, (-1.0f64).to_bits());
    assert_eq!(TWO, 2.0f64.to_bits());
    assert_eq!(THREE, 3.0f64.to_bits());
    assert_eq!(FOUR, 4.0f64.to_bits());
    assert_eq!(FIVE, 5.0f64.to_bits());
    assert_eq!(INFINITY, f64::INFINITY.to_bits());
    assert_eq!(watermill::minimum::LARGEST, to_key(f64::MAX.to_bits()).unwrap());
    assert_eq!(watermill::maximum::SMALLEST, to_key(f64::MIN.to_bits()).unwrap());
}

#[test]
fn keys_order_as_doubles_do() {
    let values = samples();
    for a in &values {
        for b in &values {
            let ka = to_key(a.to_bits()).unwrap();
            let kb = to_key(b.to_bits()).unwrap();
            assert_eq!(ka < kb, a < b);
            assert_eq!(ka == kb, a == b);
        }
    }
}

#[test]
fn nan_has_no_key() {
    for bits in [
        f64::NAN.to_bits(),
        (-f64::NAN).to_bits(),
        0x7FF0_0000_0000_0001,
        0xFFF0_0000_0000_0001,
        0x7FFF_FFFF_FFFF_FFFF,
        u64::MAX,
    ] {
        assert!(f64::from_bits(bits).is_nan());
        assert!(is_nan_bits(bits));
        assert_eq!(to_key(bits), None);
    }
    for x in samples() {
        assert!(!is_nan_bits(x.to_bits()));
    }
}

#[test]
fn key_gives_the_double_back() {
    for x in samples() {
        let back = f64::from_bits(from_key(to_key(x.to_bits()).unwrap()));
        assert_eq!(back, x);
        if x != 0.0 {
            assert_eq!(back.to_bits(), x.to_bits());
        }
    }
    assert_eq!(from_key(0), 0.0f64.to_bits());
    assert_eq!(to_key((-0.0f64).to_bits()), Some(0));
}

#[test]
fn larger_and_smaller_skip_nan() {
    let nan = f64::NAN.to_bits();
    for a in samples() {
        for b in samples() {
            assert_eq!(f64::from_bits(larger(a.to_bits(), b.to_bits())), a.max(b));
            assert_eq!(f64::from_bits(smaller(a.to_bits(), b.to_bits())), a.min(b));
        }
        assert_eq!(larger(a.to_bits(), nan), a.to_bits());
        assert_eq!(larger(nan, a.to_bits()), a.to_bits());
        assert_eq!(smaller(a.to_bits(), nan), a.to_bits());
        assert_eq!(smaller(nan, a.to_bits()), a.to_bits());
    }
}

#[test]
fn fractions_lie_between_zero_and_one() {
    for x in samples() {
        assert_eq!(is_fraction_bits(x.to_bits()), (0.0..=1.0).contains(&x));
    }
    assert!(!is_fraction_bits(f64::NAN.to_bits()));
}
