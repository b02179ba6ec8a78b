//! The bit-pattern model against the machine's own binary64 arithmetic.

use frlearn::ieee::{
    is_at_most, is_finite, is_less, is_nan, maximum, minimum, total_before, EPSILON, INFINITY, NEG_INFINITY,
    NEG_ZERO, ONE, ZERO,
};
use frlearn::transformations::{clamp01, has_usable_sum, safe_divide, sanitize};

fn samples() -> Vec<f64> {
    vec![
        0.0,
        -0.0,
        1.0,
        -1.0,
        0.5,
        -0.5,
        2.0,
        -3.0,
        1e-320,
        -1e-320,
        f64::MIN_POSITIVE,
        f64::EPSILON,
        f64::MAX,
        f64::MIN,
        f64::INFINITY,
        f64::NEG_INFINITY,
        f64::NAN,
        -f64::NAN,
        f64::from_bits(0x7FF0_0000_0000_0001),
        f64::from_bits(0xFFFF_FFFF_FFFF_FFFF),
        0.1,
        0.9999999999999999,
        1.0000000000000002,
    ]
}

#[test]
fn constants_are_the_patterns_of_their_numbers() {
    assert_eq!(ZERO, 0.0f64.to_bits());
    assert_eq!(NEG_ZERO, (-0.0f64).to_bits());
    assert_eq!(ONE, 1.0f64.to_bits());
    assert_eq!(INFINITY, f64::INFINITY.to_bits());
    assert_eq!(NEG_INFINITY, f64::NEG_INFINITY.to_bits());
    assert_eq!(EPSILON, f64::EPSILON.to_bits());
}

#[test]
fn classification_agrees_with_the_machine() {
    for v in samples() {
        assert_eq!(is_finite(v.to_bits()), v.is_finite(), "is_finite({v:?})");
        assert_eq!(is_nan(v.to_bits()), v.is_nan(), "is_nan({v:?})");
    }
}

#[test]
fn comparison_agrees_with_the_machine() {
    for a in samples() {
        for b in samples() {
            assert_eq!(is_less(a.to_bits(), b.to_bits()), a < b, "{a:?} < {b:?}");
            assert_eq!(is_at_most(a.to_bits(), b.to_bits()), a <= b, "{a:?} <= {b:?}");
        }
    }
}

#[test]
fn total_order_agrees_with_the_machine() {
    for a in samples() {
        for b in samples() {
            let expected = a.total_cmp(&b) == std::cmp::Ordering::Less;
            assert_eq!(total_before(a.to_bits(), b.to_bits()), expected, "{a:?} before {b:?}");
        }
    }
}

#[test]
fn maximum_and_minimum_agree_with_the_machine_as_numbers() {
    for a in samples() {
        for b in samples() {
            let hi = f64::from_bits(maximum(a.to_bits(), b.to_bits()));
            let lo = f64::from_bits(minimum(a.to_bits(), b.to_bits()));
            let want_hi = a.max(b);
            let want_lo = a.min(b);
            assert!(hi == want_hi || (hi.is_nan() && want_hi.is_nan()), "max({a:?}, {b:?})");
            assert!(lo == want_lo || (lo.is_nan() && want_lo.is_nan()), "min({a:?}, {b:?})");
        }
    }
}

#[test]
fn clamp01_agrees_with_the_machine() {
    for v in samples() {
        let want = if !v.is_finite() { 0.0 } else { v.clamp(0.0, 1.0) };
        let got = f64::from_bits(clamp01(v.to_bits()));
        assert_eq!(got.to_bits(), want.to_bits(), "clamp01({v:?})");
        assert!((0.0..=1.0).contains(&got));
    }
}

#[test]
fn sanitize_keeps_only_finite_positive_numbers() {
    for v in samples() {
        let want = if v.is_finite() && v > 0.0 { v } else { 0.0 };
        assert_eq!(sanitize(v.to_bits()), want.to_bits(), "sanitize({v:?})");
        assert_eq!(has_usable_sum(v.to_bits()), v > 0.0 && v.is_finite());
    }
}

#[test]
fn safe_divide_agrees_with_the_machine() {
    for n in samples() {
        for d in samples() {
            let default = -1.0f64;
            let want = if !n.is_finite() || !d.is_finite() || d.abs() <= f64::EPSILON {
                default
            } else {
                let ratio = n / d;
                if ratio.is_finite() {
                    ratio
                } else {
                    default
                }
            };
            let got = safe_divide(n.to_bits(), d.to_bits(), (n / d).to_bits(), default.to_bits());
            assert_eq!(got, want.to_bits(), "safe_divide({n:?}, {d:?})");
        }
    }
}
