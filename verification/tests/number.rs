use ack::number;

const SAMPLES: [f64; 14] = [
    0.0,
    -0.0,
    1.0,
    -1.0,
    0.5,
    1.0e308,
    -1.0e308,
    5.0e-324,
    f64::MIN_POSITIVE,
    f64::MAX,
    f64::INFINITY,
    f64::NEG_INFINITY,
    f64::NAN,
    -f64::NAN,
];

#[test]
fn constants_are_the_numbers_they_name() {
    assert_eq!(f64::from_bits(number::ONE), 1.0);
    assert_eq!(f64::from_bits(number::ZERO), 0.0);
    assert!(f64::from_bits(number::ZERO).is_sign_positive());
    assert!(f64::from_bits(number::NAN).is_nan());
    assert_eq!(number::NAN, f64::NAN.to_bits());
}

#[test]
fn predicates_agree_with_the_machine() {
    for x in SAMPLES.iter() {
        let bits = x.to_bits();
        assert_eq!(number::is_nan(bits), x.is_nan(), "is_nan of {}", x);
        assert_eq!(number::is_finite(bits), x.is_finite(), "is_finite of {}", x);
        assert_eq!(number::is_zero(bits), *x == 0.0, "is_zero of {}", x);
    }
    assert!(number::is_nan(0x7ff0_0000_0000_0001));
    assert!(number::is_nan(0xffff_ffff_ffff_ffff));
    assert!(!number::is_nan(0x7ff0_0000_0000_0000));
}

#[test]
fn negation_flips_the_sign() {
    for x in SAMPLES.iter() {
        assert_eq!(number::negated(x.to_bits()), (-x).to_bits(), "negated {}", x);
    }
    assert_eq!(number::negated(number::negated(number::ONE)), number::ONE);
}

#[test]
fn equality_agrees_with_the_machine() {
    for x in SAMPLES.iter() {
        for y in SAMPLES.iter() {
            assert_eq!(number::equal(x.to_bits(), y.to_bits()), x == y, "{} == {}", x, y);
        }
    }
}

#[test]
fn booleans_as_numbers() {
    assert_eq!(f64::from_bits(number::from_bool(true)), 1.0);
    assert_eq!(f64::from_bits(number::from_bool(false)), 0.0);
}
