use render3d::camera::STRAIGHT_ANGLE_BITS;
use render3d::document::HAIRLINE_BITS;
use render3d::scalar::{
    Relation, Scalar, HALF_BITS, INFINITY_BITS, MINUS_HALF_BITS, MINUS_INFINITY_BITS,
    MINUS_ONE_BITS, ONE_BITS, SIGN_BIT, ZERO_BITS,
};

fn scalar_of(x: f32) -> Scalar {
    Scalar::from_bits(x.to_bits())
}

fn order_samples() -> Vec<f32> {
    vec![
        0.0,
        -0.0,
        1.0,
        -1.0,
        0.5,
        -0.5,
        2.0,
        0.005,
        180.0,
        179.99998,
        1.0e-40,
        -1.0e-40,
        f32::MIN_POSITIVE,
        -f32::MIN_POSITIVE,
        f32::from_bits(1),
        f32::from_bits(0x8000_0001),
        f32::MAX,
        f32::MIN,
        f32::EPSILON,
        1.0 + f32::EPSILON,
        f32::INFINITY,
        f32::NEG_INFINITY,
        f32::NAN,
        -f32::NAN,
        f32::from_bits(0x7f80_0001),
        f32::from_bits(0xffff_ffff),
        13.0,
        -20.25,
        3.4e38,
        -3.4e38,
    ]
}

#[test]
fn bits_round_trip() {
    for x in order_samples() {
        assert_eq!(scalar_of(x).to_bits(), x.to_bits());
    }
    assert_eq!(Scalar::from_bits(0x3f80_0000).to_bits(), 1.0f32.to_bits());
}

#[test]
fn less_than_agrees_with_the_hardware() {
    for a in order_samples() {
        for b in order_samples() {
            assert_eq!(scalar_of(a).less_than(&scalar_of(b)), a < b, "{} < {}", a, b);
        }
    }
}

#[test]
fn greater_than_agrees_with_the_hardware() {
    for a in order_samples() {
        for b in order_samples() {
            assert_eq!(scalar_of(a).greater_than(&scalar_of(b)), a > b, "{} > {}", a, b);
        }
    }
}

#[test]
fn equals_agrees_with_the_hardware() {
    for a in order_samples() {
        for b in order_samples() {
            assert_eq!(scalar_of(a).equals(&scalar_of(b)), a == b, "{} == {}", a, b);
        }
    }
}

#[test]
fn relate_agrees_with_partial_order() {
    for a in order_samples() {
        for b in order_samples() {
            let expected = if a < b {
                Relation::Less
            } else if a > b {
                Relation::Greater
            } else if a == b {
                Relation::Equal
            } else {
                Relation::Unordered
            };
            assert_eq!(scalar_of(a).relate(&scalar_of(b)), expected, "{} ? {}", a, b);
        }
    }
}

#[test]
fn is_positive_agrees_with_the_hardware() {
    for a in order_samples() {
        assert_eq!(scalar_of(a).is_positive(), a > 0.0, "{} > 0", a);
    }
}

#[test]
fn classes_agree_with_the_hardware() {
    for a in order_samples() {
        let s = scalar_of(a);
        assert_eq!(s.is_nan(), a.is_nan(), "{}", a);
        assert_eq!(s.is_finite(), a.is_finite(), "{}", a);
        assert_eq!(s.is_infinite(), a.is_infinite(), "{}", a);
        assert_eq!(s.is_sign_negative(), a.is_sign_negative(), "{}", a);
    }
}

#[test]
fn zeros_are_equal_and_neither_is_positive() {
    let plus = scalar_of(0.0);
    let minus = scalar_of(-0.0);
    assert!(plus.equals(&minus));
    assert!(!plus.less_than(&minus));
    assert!(!minus.less_than(&plus));
    assert!(!plus.is_positive());
    assert!(!minus.is_positive());
    assert_ne!(plus, minus);
    assert_eq!(plus.relate(&minus), Relation::Equal);
}

#[test]
fn nan_is_unordered_even_with_itself() {
    let nan = scalar_of(f32::NAN);
    let one = scalar_of(1.0);
    assert!(!nan.less_than(&nan));
    assert!(!nan.equals(&nan));
    assert!(!nan.less_than(&one));
    assert!(!one.less_than(&nan));
    assert!(!nan.greater_than(&one));
    assert!(!nan.is_positive());
    assert_eq!(nan.relate(&one), Relation::Unordered);
    assert_eq!(one.relate(&nan), Relation::Unordered);
    assert_eq!(nan, nan);
}

#[test]
fn smallest_positive_number_is_positive() {
    assert!(Scalar::from_bits(1).is_positive());
    assert!(!Scalar::from_bits(0x8000_0001).is_positive());
    assert!(Scalar::from_bits(0x8000_0001).less_than(&Scalar::from_bits(0x8000_0000)));
    assert!(Scalar::from_bits(0x7f80_0000).is_positive());
    assert!(Scalar::from_bits(0x7f7f_ffff).less_than(&Scalar::from_bits(0x7f80_0000)));
    assert!(Scalar::from_bits(0xff80_0000).less_than(&Scalar::from_bits(0xff7f_ffff)));
}

#[test]
fn named_bit_patterns_are_the_numbers_they_name() {
    assert_eq!(ZERO_BITS, 0.0f32.to_bits());
    assert_eq!(HALF_BITS, 0.5f32.to_bits());
    assert_eq!(MINUS_HALF_BITS, (-0.5f32).to_bits());
    assert_eq!(ONE_BITS, 1.0f32.to_bits());
    assert_eq!(MINUS_ONE_BITS, (-1.0f32).to_bits());
    assert_eq!(INFINITY_BITS, f32::INFINITY.to_bits());
    assert_eq!(MINUS_INFINITY_BITS, f32::NEG_INFINITY.to_bits());
    assert_eq!(SIGN_BIT, (-0.0f32).to_bits());
    assert_eq!(STRAIGHT_ANGLE_BITS, 180.0f32.to_bits());
    assert_eq!(HAIRLINE_BITS, 0.005f32.to_bits());
}
