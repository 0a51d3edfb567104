//! The windowed statistics, against exact expected doubles.

use centaur_ti::basic_indicators::{bulk, single};

fn vb(xs: &[f64]) -> Vec<u64> {
    xs.iter().map(|x| x.to_bits()).collect()
}

fn ub(b: u64) -> f64 {
    f64::from_bits(b)
}

fn uv(bs: Vec<u64>) -> Vec<f64> {
    bs.into_iter().map(f64::from_bits).collect()
}

#[test]
fn single_mean() {
    let prices = vb(&[100.2, 100.46, 100.53, 100.38, 100.19]);
    assert_eq!(100.352, ub(single::mean(&prices)));
}

#[test]
fn single_mean_identical_prices() {
    let prices = vb(&[100.0, 100.0, 100.0]);
    assert_eq!(100.0, ub(single::mean(&prices)));
}

#[test]
fn bulk_mean() {
    let prices = vb(&[100.2, 100.46, 100.53, 100.38, 100.19]);
    let period: usize = 3;
    assert_eq!(
        vec![100.39666666666666, 100.45666666666666, 100.36666666666667],
        uv(bulk::mean(&prices, period).unwrap())
    );
}

#[test]
fn single_median_odd() {
    let prices = vb(&[100.2, 100.46, 100.53, 100.38, 100.19]);
    assert_eq!(100.38, ub(single::median(&prices)));
}

#[test]
fn single_median_even() {
    let prices = vb(&[100.2, 100.46, 100.53, 100.38]);
    assert_eq!(100.41999999999999, ub(single::median(&prices)));
}

#[test]
fn bulk_median() {
    let prices = vb(&[100.2, 100.46, 100.53, 100.38, 100.19]);
    let period: usize = 3;
    assert_eq!(
        vec![100.46, 100.46, 100.38],
        uv(bulk::median(&prices, period).unwrap())
    );
}

#[test]
fn single_mode_round_up() {
    let prices = vb(&[100.2, 100.46, 100.53, 101.08, 101.19]);
    assert_eq!(101.0, ub(single::mode(&prices)));
}

#[test]
fn single_mode_round_down() {
    let prices = vb(&[100.2, 100.46, 100.35, 101.08, 101.19]);
    assert_eq!(100.0, ub(single::mode(&prices)));
}

#[test]
fn single_mode_average() {
    let prices = vb(&[100.46, 100.35, 101.08, 101.19]);
    assert_eq!(100.5, ub(single::mode(&prices)));
}

#[test]
fn bulk_mode() {
    let prices = vb(&[100.2, 100.46, 100.53, 101.08, 101.19]);
    let period: usize = 3;
    assert_eq!(vec![100.0, 101.0, 101.0], uv(bulk::mode(&prices, period).unwrap()));
}

#[test]
fn single_max() {
    let prices = vb(&[100.2, 100.46, 100.53, 100.38, 100.19]);
    assert_eq!(100.53, ub(single::max(&prices)));
}

#[test]
fn single_min() {
    let prices = vb(&[100.2, 100.46, 100.53, 100.38, 100.19]);
    assert_eq!(100.19, ub(single::min(&prices)));
}

#[test]
fn bulk_mean_period_zero_is_error() {
    let prices = vb(&[100.2, 100.46, 100.53]);
    assert!(bulk::mean(&prices, 0).is_err());
}

#[test]
fn bulk_median_period_too_long_is_error() {
    let prices = vb(&[100.2, 100.46, 100.53]);
    assert!(bulk::median(&prices, 30).is_err());
}

#[test]
fn single_mode_negative_values() {
    let prices = vb(&[-100.2, -100.46, -100.35, -101.08, -101.19]);
    assert_eq!(-100.0, ub(single::mode(&prices)));
}
