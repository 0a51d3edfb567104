//! Input-validation behavior.

use centaur_ti::TechnicalIndicatorError;
use centaur_ti::validation::{
    assert_min_period, assert_non_empty, assert_period, assert_positive_usize, assert_same_len,
    unsupported_type,
};

#[test]
fn test_assert_non_empty_ok() {
    let non_empty = vec![1.0f64.to_bits(), 2.0f64.to_bits(), 3.0f64.to_bits()];
    assert!(assert_non_empty("prices", &non_empty).is_ok());
}

#[test]
fn test_assert_non_empty_fail() {
    let empty: Vec<u64> = vec![];
    let result = assert_non_empty("prices", &empty);
    assert!(result.is_err());
    match result {
        Err(TechnicalIndicatorError::EmptyData { name }) => {
            assert_eq!(name, "prices");
        }
        _ => panic!("Expected EmptyData error"),
    }
}

#[test]
fn test_assert_same_len_ok() {
    let a = vec![1.0f64.to_bits(), 2.0f64.to_bits(), 3.0f64.to_bits()];
    let b = vec![4.0f64.to_bits(), 5.0f64.to_bits(), 6.0f64.to_bits()];
    assert!(assert_same_len(&[("a", a.as_slice()), ("b", b.as_slice())]).is_ok());
}

#[test]
fn test_assert_same_len_fail() {
    let a = vec![1.0f64.to_bits(), 2.0f64.to_bits(), 3.0f64.to_bits()];
    let c = vec![7.0f64.to_bits(), 8.0f64.to_bits()];
    let result = assert_same_len(&[("a", a.as_slice()), ("c", c.as_slice())]);
    assert!(result.is_err());
    match result {
        Err(TechnicalIndicatorError::MismatchedLength { names }) => {
            assert_eq!(names.len(), 2);
        }
        _ => panic!("Expected MismatchedLength error"),
    }
}

#[test]
fn test_assert_period_ok() {
    assert!(assert_period(5, 10).is_ok());
}

#[test]
fn test_assert_period_zero() {
    let result = assert_period(0, 10);
    assert!(result.is_err());
    match result {
        Err(TechnicalIndicatorError::InvalidPeriod { period, .. }) => {
            assert_eq!(period, 0);
        }
        _ => panic!("Expected InvalidPeriod error"),
    }
}

#[test]
fn test_assert_period_too_long() {
    let result = assert_period(11, 10);
    assert!(result.is_err());
    match result {
        Err(TechnicalIndicatorError::InvalidPeriod { period, data_len, .. }) => {
            assert_eq!(period, 11);
            assert_eq!(data_len, 10);
        }
        _ => panic!("Expected InvalidPeriod error"),
    }
}

#[test]
fn test_assert_min_period_ok() {
    assert!(assert_min_period(4, 4, 10).is_ok());
}

#[test]
fn test_assert_min_period_too_small() {
    let result = assert_min_period(3, 4, 10);
    assert!(result.is_err());
    match result {
        Err(TechnicalIndicatorError::InvalidPeriod { period, .. }) => {
            assert_eq!(period, 3);
        }
        _ => panic!("Expected InvalidPeriod error"),
    }
}

#[test]
fn test_assert_positive_usize_zero() {
    let result = assert_positive_usize("count", 0);
    assert!(result.is_err());
    match result {
        Err(TechnicalIndicatorError::InvalidValue { name, value, .. }) => {
            assert_eq!(name, "count");
            assert_eq!(f64::from_bits(value), 0.0);
        }
        _ => panic!("Expected InvalidValue error"),
    }
}

#[test]
fn test_assert_positive_usize_ok() {
    assert!(assert_positive_usize("count", 3).is_ok());
}

#[test]
fn test_unsupported_type_variant() {
    match unsupported_type("NotARealModel") {
        TechnicalIndicatorError::UnsupportedType { name } => {
            assert_eq!(name, "NotARealModel");
        }
        _ => panic!("Expected UnsupportedType error"),
    }
}
