//! Comparisons of floating-point numbers by their bit patterns.

use dot_price::number::{highest, lowest, Num, FIVE, HALF, INFINITE, ONE, SIGN};

fn num(x: f64) -> Num {
    Num { bits: x.to_bits() }
}

fn samples() -> Vec<f64> {
    vec![
        0.0,
        -0.0,
        1.0,
        -1.0,
        0.5,
        0.49999999999999994,
        5.0,
        1.259,
        f64::MIN_POSITIVE,
        5e-324,
        -5e-324,
        f64::MAX,
        f64::MIN,
        f64::INFINITY,
        f64::NEG_INFINITY,
        f64::NAN,
        -f64::NAN,
    ]
}

#[test]
fn constants_are_what_they_are_called() {
    assert_eq!(HALF, 0.5f64.to_bits());
    assert_eq!(ONE, 1.0f64.to_bits());
    assert_eq!(FIVE, 5.0f64.to_bits());
    assert_eq!(INFINITE, f64::INFINITY.to_bits());
    assert_eq!(SIGN, (-0.0f64).to_bits());
}

#[test]
fn order_of_numbers() {
    for a in samples() {
        assert_eq!(num(a).nan(), a.is_nan());
        assert_eq!(num(a).positive(), a > 0.0);
        assert_eq!(num(a).at_most_zero(), a <= 0.0);
        for b in samples() {
            assert_eq!(num(a).less(num(b)), a < b, "{a} {b}");
        }
    }
}

#[test]
fn total_order() {
    for a in samples() {
        for b in samples() {
            assert_eq!(num(a).ranks_below(num(b)), a.total_cmp(&b).is_lt(), "{a} {b}");
        }
    }
}

#[test]
fn extremes() {
    assert_eq!(lowest(&vec![]), None);
    assert_eq!(highest(&vec![]), None);
    let all: Vec<Num> = samples().into_iter().map(num).collect();
    assert_eq!(lowest(&all), samples().into_iter().min_by(f64::total_cmp).map(num));
    assert_eq!(highest(&all), samples().into_iter().max_by(f64::total_cmp).map(num));
    let prices = vec![num(1.259), num(1.257), num(1.26), num(1.2573)];
    assert_eq!(lowest(&prices), Some(num(1.257)));
    assert_eq!(highest(&prices), Some(num(1.26)));
}
