use magnetite::fp;

fn sample_values() -> Vec<f64> {
    vec![
        0.0,
        -0.0,
        1.0,
        -1.0,
        1.5,
        -1.5,
        2.0,
        1e-308,
        -1e-308,
        5e-324,
        -5e-324,
        f64::MAX,
        f64::MIN,
        f64::MIN_POSITIVE,
        f64::INFINITY,
        f64::NEG_INFINITY,
        f64::NAN,
        -f64::NAN,
        3.141592653589793,
        -2.718281828459045,
    ]
}

#[test]
fn lt_matches_ieee() {
    for &a in &sample_values() {
        for &b in &sample_values() {
            assert_eq!(
                fp::lt(a.to_bits(), b.to_bits()),
                a < b,
                "lt mismatch for {a} {b}"
            );
        }
    }
}

#[test]
fn gt_matches_ieee() {
    for &a in &sample_values() {
        for &b in &sample_values() {
            assert_eq!(
                fp::gt(a.to_bits(), b.to_bits()),
                a > b,
                "gt mismatch for {a} {b}"
            );
        }
    }
}

#[test]
fn eq_matches_ieee() {
    for &a in &sample_values() {
        for &b in &sample_values() {
            assert_eq!(
                fp::eq(a.to_bits(), b.to_bits()),
                a == b,
                "eq mismatch for {a} {b}"
            );
        }
    }
}

#[test]
fn neg_matches_ieee() {
    for &a in &sample_values() {
        assert_eq!(fp::neg(a.to_bits()), (-a).to_bits(), "neg mismatch for {a}");
    }
}

#[test]
fn le_zero_matches_ieee() {
    for &a in &sample_values() {
        assert_eq!(fp::le_zero(a.to_bits()), a <= 0.0, "le_zero mismatch for {a}");
    }
}

#[test]
fn is_nan_matches_ieee() {
    for &a in &sample_values() {
        assert_eq!(fp::is_nan(a.to_bits()), a.is_nan(), "is_nan mismatch for {a}");
    }
}

#[test]
fn zeros_compare_equal() {
    assert!(fp::eq((0.0f64).to_bits(), (-0.0f64).to_bits()));
    assert!(!fp::lt((0.0f64).to_bits(), (-0.0f64).to_bits()));
}

#[test]
fn infinity_constants_match() {
    assert_eq!(fp::POS_INFINITY, f64::INFINITY.to_bits());
    assert_eq!(fp::NEG_INFINITY, f64::NEG_INFINITY.to_bits());
    assert_eq!(fp::POS_ZERO, (0.0f64).to_bits());
}
