use mizer_core::F64Bits;

fn bits(value: f64) -> F64Bits {
    F64Bits { bits: value.to_bits() }
}

#[test]
fn same_value_agrees_with_f64_equality_but_keeps_a_nan_equal_to_itself() {
    let samples = [
        0.0,
        -0.0,
        0.5,
        -0.5,
        1.0,
        f64::MIN_POSITIVE,
        f64::MAX,
        f64::INFINITY,
        f64::NEG_INFINITY,
        f64::NAN,
        -f64::NAN,
    ];
    for a in samples {
        for b in samples {
            let expected = a == b || a.to_bits() == b.to_bits();
            assert_eq!(bits(a).same_value(&bits(b)), expected, "{a} vs {b}");
        }
    }
}

#[test]
fn zeros_are_one_value_and_nan_equals_the_same_nan() {
    assert!(bits(0.0).same_value(&bits(-0.0)));
    assert!(bits(f64::NAN).same_value(&bits(f64::NAN)));
    assert!(!bits(f64::NAN).same_value(&bits(-f64::NAN)));
}

#[test]
fn zero_and_one_have_their_patterns() {
    assert_eq!(f64::from_bits(F64Bits::zero().bits), 0.0);
    assert_eq!(f64::from_bits(F64Bits::one().bits), 1.0);
}
