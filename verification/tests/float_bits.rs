use kl_lords::sorting::sort_by_total_order;
use kl_lords::float_bits::{f32_clamp_unit_of, f32_finite, f32_lt, f32_eq, f32_le, f64_le, f32_positive_finite, f64_finite, f64_non_negative_finite, f64_positive_finite};

fn samples() -> Vec<f32> {
    vec![
        0.0, -0.0, 1.0, -1.0, 0.5, -0.5, 1e-45, -1e-45, f32::MIN_POSITIVE, f32::MAX, f32::MIN,
        f32::INFINITY, f32::NEG_INFINITY, f32::NAN, -f32::NAN, 3.25, -3.25, 1e20, -1e20,
    ]
}

#[test]
fn float_comparison_on_bits_matches_rust() {
    for a in samples() {
        for b in samples() {
            assert_eq!(f32_le(a.to_bits(), b.to_bits()), a <= b, "{a} <= {b}");
            assert_eq!(f32_eq(a.to_bits(), b.to_bits()), a == b, "{a} == {b}");
        }
        assert_eq!(f32_positive_finite(a.to_bits()), a.is_finite() && a > 0.0, "{a}");
    }
}

#[test]
fn f64_classification_on_bits_matches_rust() {
    let values = [0.0, -0.0, 2.5, -2.5, f64::MIN_POSITIVE, 5e-324, -5e-324, f64::MAX, f64::INFINITY, f64::NEG_INFINITY, f64::NAN];
    for v in values {
        assert_eq!(f64_finite(v.to_bits()), v.is_finite(), "{v}");
        assert_eq!(f64_positive_finite(v.to_bits()), v.is_finite() && v > 0.0, "{v}");
        assert_eq!(f64_non_negative_finite(v.to_bits()), v.is_finite() && v >= 0.0, "{v}");
    }
}

#[test]
fn f64_comparison_on_bits_matches_rust() {
    let values = [0.0, -0.0, 1.0, -1.0, 0.5, 5e-324, -5e-324, f64::MAX, f64::MIN, f64::INFINITY, f64::NEG_INFINITY, f64::NAN, 2.5, -2.5];
    for a in values {
        for b in values {
            assert_eq!(f64_le(a.to_bits(), b.to_bits()), a <= b, "{a} <= {b}");
        }
    }
}

#[test]
fn clamp_and_less_on_bits_match_rust() {
    for a in samples() {
        assert_eq!(f32_finite(a.to_bits()), a.is_finite(), "{a}");
        if !a.is_nan() {
            assert_eq!(f32_clamp_unit_of(a.to_bits()), a.clamp(0.0, 1.0).to_bits(), "{a}");
        }
        for b in samples() {
            assert_eq!(f32_lt(a.to_bits(), b.to_bits()), a < b, "{a} < {b}");
        }
    }
}

#[test]
fn stable_total_order_sort() {
    let keys = samples();
    let items: Vec<(u32, usize)> = keys.iter().enumerate().map(|(i, k)| (k.to_bits(), i)).collect();
    let mut expected: Vec<(f32, usize)> = keys.iter().copied().zip(0..).collect();
    expected.sort_by(|l, r| l.0.total_cmp(&r.0));
    let sorted = sort_by_total_order(items);
    assert_eq!(sorted.iter().map(|p| p.1).collect::<Vec<_>>(), expected.iter().map(|p| p.1).collect::<Vec<_>>());
}
