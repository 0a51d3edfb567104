//! Concrete checks of the library-wide properties: segment coverage,
//! refit idempotence, ordered extrema, and goodness-of-fit bounds.

use centaur_ti::chart_trends::{
    break_down_trends, get_trend_line, goodness_of_fit, peaks, valleys, TrendBreakConfig,
};

fn vb(xs: &[f64]) -> Vec<u64> {
    xs.iter().map(|x| x.to_bits()).collect()
}

#[test]
fn segments_are_contiguous_and_cover_the_series() {
    let prices = vb(&[
        100.0, 102.0, 103.0, 101.0, 99.0, 99.0, 102.0, 103.0, 106.0, 107.0, 105.0, 104.0, 101.0,
        97.0, 100.0,
    ]);
    let segs = break_down_trends(&prices, TrendBreakConfig::default()).unwrap();
    assert!(!segs.is_empty());
    assert_eq!(0, segs[0].0);
    assert_eq!(prices.len() - 1, segs[segs.len() - 1].1);
    for w in segs.windows(2) {
        assert_eq!(w[0].1, w[1].0);
    }
    for s in &segs {
        assert!(s.0 < s.1);
    }
}

#[test]
fn refitting_a_segment_reproduces_its_line() {
    let prices = vb(&[100.2, 100.46, 100.53, 100.38, 100.19]);
    let cfg = TrendBreakConfig {
        max_outliers: 1,
        soft_adj_r_squared_minimum: 0.5f64.to_bits(),
        hard_adj_r_squared_minimum: 0.25f64.to_bits(),
        soft_rmse_multiplier: 1.2f64.to_bits(),
        hard_rmse_multiplier: 2.0f64.to_bits(),
        soft_durbin_watson_min: 1.0f64.to_bits(),
        soft_durbin_watson_max: 3.0f64.to_bits(),
        hard_durbin_watson_min: 0.5f64.to_bits(),
        hard_durbin_watson_max: 3.5f64.to_bits(),
    };
    let segs = break_down_trends(&prices, cfg).unwrap();
    assert_eq!(2, segs.len());
    for (start, end, slope, intercept) in segs {
        let pts: Vec<(u64, usize)> = (start..=end).map(|i| (prices[i], i)).collect();
        let refit = get_trend_line(&pts);
        let ds = (f64::from_bits(refit.0) - f64::from_bits(slope)).abs();
        let di = (f64::from_bits(refit.1) - f64::from_bits(intercept)).abs();
        assert!(ds < 1e-9, "slope drifted by {}", ds);
        assert!(di < 1e-9, "intercept drifted by {}", di);
    }
}

#[test]
fn peak_indices_strictly_increase() {
    let highs = vb(&[
        103.0, 102.0, 107.0, 104.0, 100.0, 109.0, 105.0, 104.5, 108.0, 101.0, 103.5, 110.0,
    ]);
    let found = peaks(&highs, 3, 2).unwrap();
    for w in found.windows(2) {
        assert!(w[0].1 < w[1].1);
        assert!((f64::from_bits(w[0].0), w[0].1) != (f64::from_bits(w[1].0), w[1].1));
    }
}

#[test]
fn valley_indices_strictly_increase() {
    let lows = vb(&[
        98.0, 101.0, 95.0, 100.0, 97.0, 93.0, 96.0, 94.5, 99.0, 92.0, 95.5, 91.0,
    ]);
    let found = valleys(&lows, 3, 2).unwrap();
    for w in found.windows(2) {
        assert!(w[0].1 < w[1].1);
    }
}

#[test]
fn perfect_fit_gives_adjusted_r_squared_one() {
    // three points exactly on the line y = x
    let pts: Vec<(u64, usize)> = vec![(0.0f64.to_bits(), 0), (1.0f64.to_bits(), 1), (2.0f64.to_bits(), 2)];
    let trend = get_trend_line(&pts);
    assert_eq!(1.0, f64::from_bits(trend.0));
    assert_eq!(0.0, f64::from_bits(trend.1));
    let (ar2, rmse, dw) = goodness_of_fit(&pts, &trend);
    assert_eq!(1.0, f64::from_bits(ar2));
    assert_eq!(0.0, f64::from_bits(rmse));
    assert_eq!(2.0, f64::from_bits(dw));
    let a = f64::from_bits(ar2);
    assert!((0.0..=1.0).contains(&a));
}

#[test]
fn goodness_of_fit_imperfect_line() {
    let prices = vb(&[100.2, 100.46, 100.53]);
    let pts: Vec<(u64, usize)> = prices.iter().enumerate().map(|(i, &p)| (p, i)).collect();
    let trend = get_trend_line(&pts);
    assert_eq!(0.16499999999999915, f64::from_bits(trend.0));
    assert_eq!(100.23166666666665, f64::from_bits(trend.1));
    let (ar2, rmse, dw) = goodness_of_fit(&pts, &trend);
    assert_eq!(0.8009922822491726, f64::from_bits(ar2));
    assert_eq!(0.044783429475147477, f64::from_bits(rmse));
    assert_eq!(2.999999999999999, f64::from_bits(dw));
}

#[test]
fn goodness_of_fit_single_point_is_neutral() {
    let pts: Vec<(u64, usize)> = vec![(5.0f64.to_bits(), 0)];
    let trend = (0.0f64.to_bits(), 5.0f64.to_bits());
    let (ar2, rmse, dw) = goodness_of_fit(&pts, &trend);
    assert_eq!(0.0, f64::from_bits(ar2));
    assert_eq!(0.0, f64::from_bits(rmse));
    assert_eq!(2.0, f64::from_bits(dw));
}

#[test]
fn spec_scenario_peaks() {
    let highs = vb(&[103.0, 102.0, 107.0, 104.0, 100.0]);
    let found = peaks(&highs, 3, 1).unwrap();
    assert_eq!(1, found.len());
    assert_eq!(107.0, f64::from_bits(found[0].0));
    assert_eq!(2, found[0].1);
}

#[test]
fn peaks_replace_within_neighborhood() {
    // the second window's higher maximum replaces the first emitted peak
    let highs = vb(&[5.0, 6.0, 7.0, 0.0, 0.0]);
    let found = peaks(&highs, 2, 3).unwrap();
    assert_eq!(1, found.len());
    assert_eq!((7.0, 2), (f64::from_bits(found[0].0), found[0].1));
}

#[test]
fn peaks_absorb_then_new() {
    // lower maxima near the first peak are absorbed; a far higher one
    // starts a new entry
    let highs = vb(&[1.0, 9.0, 8.0, 7.0, 2.0, 3.0, 11.0]);
    let found = peaks(&highs, 2, 1).unwrap();
    let got: Vec<(f64, usize)> = found
        .into_iter()
        .map(|(v, i)| (f64::from_bits(v), i))
        .collect();
    assert_eq!(vec![(9.0, 1), (11.0, 6)], got);
}

#[test]
fn valleys_replace_within_neighborhood() {
    let lows = vb(&[5.0, 4.0, 3.0, 10.0, 10.0]);
    let found = valleys(&lows, 2, 3).unwrap();
    assert_eq!(1, found.len());
    assert_eq!((3.0, 2), (f64::from_bits(found[0].0), found[0].1));
}
