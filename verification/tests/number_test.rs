use rlox::number::{
    number_equal, number_is_nan, number_is_zero, number_less, number_less_equal, number_negate,
};
use rlox::object::Object;

fn samples() -> Vec<f64> {
    vec![
        0.0,
        -0.0,
        1.0,
        -1.0,
        0.5,
        -0.5,
        1e300,
        -1e300,
        5e-324,
        -5e-324,
        f64::MAX,
        f64::MIN,
        f64::MIN_POSITIVE,
        f64::INFINITY,
        f64::NEG_INFINITY,
        f64::NAN,
        -f64::NAN,
        3.0,
        45.67,
    ]
}

#[test]
fn comparisons_agree_with_doubles() {
    for a in samples() {
        for b in samples() {
            assert_eq!(number_less(a.to_bits(), b.to_bits()), a < b, "{} < {}", a, b);
            assert_eq!(number_less_equal(a.to_bits(), b.to_bits()), a <= b, "{} <= {}", a, b);
            assert_eq!(number_equal(a.to_bits(), b.to_bits()), a == b, "{} == {}", a, b);
        }
    }
}

#[test]
fn negation_agrees_with_doubles() {
    for a in samples() {
        assert_eq!(number_negate(a.to_bits()), (-a).to_bits(), "-{}", a);
    }
    assert_eq!(number_negate(0), 0x8000_0000_0000_0000);
    assert_eq!(number_negate(0x8000_0000_0000_0000), 0);
}

#[test]
fn zero_and_nan_are_recognised() {
    for a in samples() {
        assert_eq!(number_is_zero(a.to_bits()), a == 0.0, "{}", a);
        assert_eq!(number_is_nan(a.to_bits()), a.is_nan(), "{}", a);
    }
    assert!(number_is_zero(0));
    assert!(number_is_zero(0x8000_0000_0000_0000));
    assert!(!number_is_zero(1));
    assert!(!number_is_nan(0x7ff0_0000_0000_0000));
    assert!(number_is_nan(0x7ff0_0000_0000_0001));
    assert!(number_is_nan(0xfff8_0000_0000_0000));
}

#[test]
fn nan_is_not_equal_to_itself() {
    let nan = Object::Number(f64::NAN.to_bits());
    assert!(nan != nan.clone());
    assert!(Object::Number(0f64.to_bits()) == Object::Number((-0f64).to_bits()));
}

#[test]
fn equality_of_values() {
    assert!(Object::Nil == Object::Nil);
    assert!(Object::Boolean(true) == Object::Boolean(true));
    assert!(Object::Boolean(true) != Object::Boolean(false));
    assert!(Object::String("a".to_string()) == Object::String("a".to_string()));
    assert!(Object::String("a".to_string()) != Object::String("b".to_string()));
    assert!(Object::Function(1) == Object::Function(1));
    assert!(Object::Function(1) != Object::Function(2));
    assert!(Object::Function(1) != Object::Class(1));
    assert!(Object::Instance(3) == Object::Instance(3));
    assert!(Object::Class(0) != Object::Instance(0));
    assert!(Object::Nil != Object::Boolean(false));
    assert!(Object::Number(1f64.to_bits()) != Object::String("1".to_string()));
}

#[test]
fn truthiness() {
    assert!(!Object::Nil.is_truthy());
    assert!(!Object::Boolean(false).is_truthy());
    assert!(Object::Boolean(true).is_truthy());
    assert!(Object::Number(0f64.to_bits()).is_truthy());
    assert!(Object::String(String::new()).is_truthy());
    assert!(Object::Function(0).is_truthy());
    assert!(Object::Class(0).is_truthy());
    assert!(Object::Instance(0).is_truthy());
}
