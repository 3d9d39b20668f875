use crmonitor::reading::{
    Reading, FADING, FOUR, GIGA, HALF, HUNDRED, INFINITY, KILO, MEGA, MILLIONTH, NEARLY_HUNDRED, ONE,
    QUARTER, TENTH, THOUSANDTH, ZERO,
};

fn num(x: f64) -> Reading {
    Reading { bits: x.to_bits() }
}

fn samples() -> Vec<f64> {
    vec![
        0.0,
        -0.0,
        1.0,
        -1.0,
        0.5,
        1.5,
        -1.5,
        99.5,
        100.0,
        1e-6,
        5e-324,
        -5e-324,
        2.2250738585072014e-308,
        2.225073858507201e-308,
        f64::MAX,
        f64::MIN,
        f64::INFINITY,
        f64::NEG_INFINITY,
        f64::NAN,
        -f64::NAN,
    ]
}

#[test]
fn constants_are_the_numbers_they_are_named_for() {
    assert_eq!(f64::from_bits(ZERO), 0.0);
    assert_eq!(f64::from_bits(ONE), 1.0);
    assert_eq!(f64::from_bits(HALF), 0.5);
    assert_eq!(f64::from_bits(QUARTER), 0.25);
    assert_eq!(f64::from_bits(FOUR), 4.0);
    assert_eq!(f64::from_bits(NEARLY_HUNDRED), 99.5);
    assert_eq!(f64::from_bits(HUNDRED), 100.0);
    assert_eq!(f64::from_bits(KILO), 1024.0);
    assert_eq!(f64::from_bits(MEGA), 1024.0 * 1024.0);
    assert_eq!(f64::from_bits(GIGA), 1024.0 * 1024.0 * 1024.0);
    assert_eq!(f64::from_bits(TENTH), 0.1);
    assert_eq!(f64::from_bits(THOUSANDTH), 0.001);
    assert_eq!(f64::from_bits(MILLIONTH), 1e-6);
    assert_eq!(f64::from_bits(FADING), 0.985);
    assert_eq!(f64::from_bits(INFINITY), f64::INFINITY);
}

#[test]
fn order_is_that_of_the_numbers() {
    for a in samples() {
        for b in samples() {
            assert_eq!(num(a).less_than(num(b)), a < b, "{} < {}", a, b);
            assert_eq!(num(a).at_most(num(b)), a <= b, "{} <= {}", a, b);
        }
    }
}

#[test]
fn kinds_are_those_of_the_numbers() {
    for a in samples() {
        assert_eq!(num(a).is_nan(), a.is_nan());
        assert_eq!(num(a).is_finite(), a.is_finite());
    }
}

#[test]
fn clamping_is_that_of_the_numbers() {
    for a in samples() {
        let want = a.clamp(0.0, 100.0);
        assert_eq!(num(a).clamp(num(0.0), num(100.0)), num(want), "{}", a);
    }
}

#[test]
fn raising_is_that_of_the_numbers() {
    for a in samples() {
        assert_eq!(num(a).at_least(num(0.25)), num(a.max(0.25)), "{}", a);
    }
}
