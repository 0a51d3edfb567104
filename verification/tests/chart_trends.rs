//! Peaks, valleys, trend lines and the segmentation engine.

use centaur_ti::chart_trends::{
    break_down_trends, overall_trend, peak_trend, peaks, valley_trend, valleys, TrendBreakConfig,
};

fn vb(xs: &[f64]) -> Vec<u64> {
    xs.iter().map(|x| x.to_bits()).collect()
}

fn pairs(ps: Vec<(u64, usize)>) -> Vec<(f64, usize)> {
    ps.into_iter().map(|(v, i)| (f64::from_bits(v), i)).collect()
}

fn line(t: (u64, u64)) -> (f64, f64) {
    (f64::from_bits(t.0), f64::from_bits(t.1))
}

fn segments(ss: Vec<(usize, usize, u64, u64)>) -> Vec<(usize, usize, f64, f64)> {
    ss.into_iter()
        .map(|(a, b, s, i)| (a, b, f64::from_bits(s), f64::from_bits(i)))
        .collect()
}

#[test]
fn peaks_single_peak() {
    let highs = vb(&[101.26, 102.57, 102.32, 100.69]);
    assert_eq!(vec![(102.57, 1)], pairs(peaks(&highs, 4_usize, 1usize).unwrap()));
}

#[test]
fn peaks_multiple_peaks() {
    let highs = vb(&[101.26, 102.57, 102.32, 100.69, 100.83, 101.73, 102.01]);
    assert_eq!(
        vec![(102.57, 1), (102.01, 6)],
        pairs(peaks(&highs, 4_usize, 1usize).unwrap())
    );
}

#[test]
fn peaks_multiple_peaks_same_period() {
    let highs = vb(&[101.26, 102.57, 102.57, 100.69, 100.83, 101.73, 102.01]);
    assert_eq!(
        vec![(102.57, 2), (102.01, 6)],
        pairs(peaks(&highs, 4_usize, 1usize).unwrap())
    );
}

#[test]
fn valleys_single_valley() {
    let lows = vb(&[100.08, 98.75, 100.14, 98.98, 99.07, 100.1, 99.96]);
    assert_eq!(vec![(98.75, 1)], pairs(valleys(&lows, 7_usize, 1usize).unwrap()));
}

#[test]
fn valleys_multiple_valleys() {
    let lows = vb(&[100.08, 98.75, 100.14, 98.98, 99.07, 100.1, 99.96]);
    assert_eq!(
        vec![(98.75, 1), (98.98, 3)],
        pairs(valleys(&lows, 4_usize, 1usize).unwrap())
    );
}

#[test]
fn valleys_multiple_valleys_same_period() {
    let lows = vb(&[98.75, 98.75, 100.14, 98.98, 99.07, 100.1, 99.96]);
    assert_eq!(
        vec![(98.75, 1), (98.98, 3)],
        pairs(valleys(&lows, 4_usize, 1usize).unwrap())
    );
}

#[test]
fn peaks_trend() {
    let highs = vb(&[101.26, 102.57, 102.32, 100.69, 100.83, 101.73, 102.01]);
    assert_eq!(
        (-0.11199999999999762, 102.68199999999999),
        line(peak_trend(&highs, 4_usize).unwrap())
    );
}

#[test]
fn valleys_trend() {
    let lows = vb(&[100.08, 98.75, 100.14, 98.98, 99.07, 100.1, 99.96]);
    assert_eq!(
        (0.11500000000000199, 98.635),
        line(valley_trend(&lows, 4_usize).unwrap())
    );
}

#[test]
fn overall_trends() {
    let prices = vb(&[100.2, 100.46, 100.53, 100.38, 100.19]);
    assert_eq!((-0.010000000000000852, 100.372), line(overall_trend(&prices)));
}

#[test]
fn break_down_trends_std_dev() {
    let prices = vb(&[100.2, 100.46, 100.53, 100.38, 100.19]);
    let trend_break_config = TrendBreakConfig {
        max_outliers: 1,
        soft_adj_r_squared_minimum: 0.5f64.to_bits(),
        hard_adj_r_squared_minimum: 0.25f64.to_bits(),
        soft_rmse_multiplier: 1.2f64.to_bits(),
        hard_rmse_multiplier: 2.0f64.to_bits(),
        soft_durbin_watson_min: 1.0f64.to_bits(),
        soft_durbin_watson_max: 3.0f64.to_bits(),
        hard_durbin_watson_min: 0.5f64.to_bits(),
        hard_durbin_watson_max: 3.5f64.to_bits(),
    };
    let trend_break_down = break_down_trends(&prices, trend_break_config).unwrap();
    assert_eq!(
        vec![
            (0, 2, 0.16499999999999915, 100.23166666666665),
            (2, 4, -0.1700000000000017, 100.87666666666668)
        ],
        segments(trend_break_down)
    );
}

#[test]
fn break_down_trends_doc_series() {
    let prices = vb(&[
        100.0, 102.0, 103.0, 101.0, 99.0, 99.0, 102.0, 103.0, 106.0, 107.0, 105.0, 104.0, 101.0,
        97.0, 100.0,
    ]);
    let trend_break_config = TrendBreakConfig {
        max_outliers: 1,
        soft_adj_r_squared_minimum: 0.25f64.to_bits(),
        hard_adj_r_squared_minimum: 0.05f64.to_bits(),
        soft_rmse_multiplier: 1.2f64.to_bits(),
        hard_rmse_multiplier: 1.8f64.to_bits(),
        soft_durbin_watson_min: 1.0f64.to_bits(),
        soft_durbin_watson_max: 3.0f64.to_bits(),
        hard_durbin_watson_min: 0.5f64.to_bits(),
        hard_durbin_watson_max: 3.5f64.to_bits(),
    };
    let trend_break_down = break_down_trends(&prices, trend_break_config).unwrap();
    assert_eq!(
        vec![
            (0, 2, 1.5, 100.16666666666667),
            (2, 4, -2.0, 107.0),
            (4, 9, 1.7714285714285714, 91.15238095238095),
            (9, 14, -1.4459459459459458, 119.5945945945946)
        ],
        segments(trend_break_down)
    );
}

#[test]
fn break_down_trends_empty_is_error() {
    let prices: Vec<u64> = Vec::new();
    assert!(break_down_trends(&prices, TrendBreakConfig::default()).is_err());
}

#[test]
fn peaks_period_zero_is_error() {
    let highs = vb(&[101.26, 102.57]);
    assert!(peaks(&highs, 0, 1).is_err());
}

#[test]
fn valleys_period_too_long_is_error() {
    let lows = vb(&[98.75, 98.75, 100.14]);
    assert!(valleys(&lows, 40, 1).is_err());
}
