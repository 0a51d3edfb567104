//! The moving-average smoothing collaborators.

use centaur_ti::moving_average::{bulk, single};
use centaur_ti::{MovingAverageType, TechnicalIndicatorError};
use centaur_ti::validation::assert_min_length;

fn vb(xs: &[f64]) -> Vec<u64> {
    xs.iter().map(|x| x.to_bits()).collect()
}

#[test]
fn single_moving_average_simple() {
    let prices = vb(&[100.14, 98.98, 99.07, 100.1, 99.96]);
    assert_eq!(
        99.64999999999999,
        f64::from_bits(single::moving_average(&prices, MovingAverageType::Simple))
    );
}

#[test]
fn single_moving_average_smoothed() {
    let prices = vb(&[100.14, 98.98, 99.07, 100.1, 99.96]);
    assert_eq!(
        99.6965445026178,
        f64::from_bits(single::moving_average(&prices, MovingAverageType::Smoothed))
    );
}

#[test]
fn single_moving_average_exponential() {
    let prices = vb(&[100.14, 98.98, 99.07, 100.1, 99.96]);
    assert_eq!(
        99.74616113744075,
        f64::from_bits(single::moving_average(&prices, MovingAverageType::Exponential))
    );
}

#[test]
fn single_moving_average_personalised() {
    let prices = vb(&[100.14, 98.98, 99.07, 100.1, 99.96]);
    assert_eq!(
        99.85111589831969,
        f64::from_bits(single::moving_average(
            &prices,
            MovingAverageType::Personalised {
                alpha_num: 5.0f64.to_bits(),
                alpha_den: 4.0f64.to_bits()
            }
        ))
    );
}

#[test]
fn bulk_moving_average_exponential() {
    let prices = vb(&[100.14, 98.98, 99.07, 100.1, 99.96]);
    let out: Vec<f64> = bulk::moving_average(&prices, MovingAverageType::Exponential, 3)
        .unwrap()
        .into_iter()
        .map(f64::from_bits)
        .collect();
    assert_eq!(
        vec![99.19714285714285, 99.64571428571428, 99.87285714285713],
        out
    );
}

#[test]
fn bulk_moving_average_period_zero_is_error() {
    let prices = vb(&[100.14, 98.98]);
    assert!(matches!(
        bulk::moving_average(&prices, MovingAverageType::Simple, 0),
        Err(TechnicalIndicatorError::InvalidPeriod { .. })
    ));
}

#[test]
fn test_assert_min_length_short() {
    let result = assert_min_length("prices", 5, 3);
    assert!(matches!(
        result,
        Err(TechnicalIndicatorError::InvalidPeriod { period: 5, data_len: 3, .. })
    ));
    assert!(assert_min_length("prices", 3, 3).is_ok());
}
