//! The Parabolic Time Price System and the Directional Movement System.

use centaur_ti::trend_indicators::{bulk, single};
use centaur_ti::{ConstantModelType, Position, TechnicalIndicatorError};

fn b(x: f64) -> u64 {
    x.to_bits()
}

fn vb(xs: &[f64]) -> Vec<u64> {
    xs.iter().map(|x| x.to_bits()).collect()
}

fn uv(bs: Vec<u64>) -> Vec<f64> {
    bs.into_iter().map(f64::from_bits).collect()
}

fn quads(ts: Vec<(u64, u64, u64, u64)>) -> Vec<(f64, f64, f64, f64)> {
    ts.into_iter()
        .map(|(p, n, a, r)| {
            (
                f64::from_bits(p),
                f64::from_bits(n),
                f64::from_bits(a),
                f64::from_bits(r),
            )
        })
        .collect()
}

#[test]
fn single_long_parabolic_price_time_system() {
    assert_eq!(
        100.6,
        f64::from_bits(single::long_parabolic_time_price_system(
            b(100.0),
            b(110.0),
            b(0.06),
            b(105.0)
        ))
    );
}

#[test]
fn single_long_parabolic_price_time_system_min() {
    assert_eq!(
        90.0,
        f64::from_bits(single::long_parabolic_time_price_system(
            b(100.0),
            b(110.0),
            b(0.06),
            b(90.0)
        ))
    );
}

#[test]
fn single_short_parabolic_price_time_system() {
    assert_eq!(
        99.6,
        f64::from_bits(single::short_parabolic_time_price_system(
            b(100.0),
            b(90.0),
            b(0.04),
            b(95.0)
        ))
    );
}

#[test]
fn single_short_parabolic_price_time_system_max() {
    assert_eq!(
        105.0,
        f64::from_bits(single::short_parabolic_time_price_system(
            b(100.0),
            b(90.0),
            b(0.04),
            b(105.0)
        ))
    );
}

#[test]
fn bulk_parabolic_time_price_system_long_switch_previous() {
    let highs = vb(&[100.64, 102.39, 101.51, 99.48, 96.93]);
    let lows = vb(&[95.92, 96.77, 95.84, 91.22, 89.12]);
    assert_eq!(
        vec![90.7812, 91.245552, 91.69132992, 102.1666, 101.64473600000001],
        uv(bulk::parabolic_time_price_system(
            &highs,
            &lows,
            b(0.02),
            b(0.2),
            b(0.02),
            Position::Long,
            b(90.58)
        )
        .unwrap())
    );
}

#[test]
fn bulk_parabolic_time_price_system_long_switch_no_previous() {
    let highs = vb(&[100.64, 102.39, 101.51, 99.48, 96.93]);
    let lows = vb(&[95.92, 96.77, 95.84, 91.22, 89.12]);
    assert_eq!(
        vec![95.92, 95.92, 102.39, 101.9432, 101.17380800000001],
        uv(bulk::parabolic_time_price_system(
            &highs,
            &lows,
            b(0.02),
            b(0.2),
            b(0.02),
            Position::Long,
            b(0.0)
        )
        .unwrap())
    );
}

#[test]
fn bulk_parabolic_time_price_system_short_switch_previous() {
    let highs = vb(&[99.48, 96.93, 94.66, 102.79, 105.81]);
    let lows = vb(&[91.22, 89.12, 87.35, 88.57, 90.64]);
    assert_eq!(
        vec![102.1666, 101.64473600000001, 100.78705184, 87.35, 88.0884],
        uv(bulk::parabolic_time_price_system(
            &highs,
            &lows,
            b(0.02),
            b(0.2),
            b(0.02),
            Position::Short,
            b(102.39)
        )
        .unwrap())
    );
}

#[test]
fn bulk_parabolic_time_price_system_short_switch_no_previous() {
    let highs = vb(&[99.48, 96.93, 94.66, 102.79, 105.81]);
    let lows = vb(&[91.22, 89.12, 87.35, 88.57, 90.64]);
    assert_eq!(
        vec![99.48, 99.48, 98.7522, 87.35, 88.0884],
        uv(bulk::parabolic_time_price_system(
            &highs,
            &lows,
            b(0.02),
            b(0.2),
            b(0.02),
            Position::Short,
            b(0.0)
        )
        .unwrap())
    );
}

#[test]
fn bulk_parabolic_time_price_system_long_no_switch() {
    let highs = vb(&[100.64, 102.39, 101.51]);
    let lows = vb(&[95.92, 96.77, 95.84]);
    assert_eq!(
        vec![90.7812, 91.245552, 91.69132992],
        uv(bulk::parabolic_time_price_system(
            &highs,
            &lows,
            b(0.02),
            b(0.2),
            b(0.02),
            Position::Long,
            b(90.58)
        )
        .unwrap())
    );
}

#[test]
fn bulk_parabolic_time_price_system_short_no_switch() {
    let highs = vb(&[99.48, 96.93, 94.66]);
    let lows = vb(&[91.22, 89.12, 87.35]);
    assert_eq!(
        vec![102.1666, 101.64473600000001, 100.78705184],
        uv(bulk::parabolic_time_price_system(
            &highs,
            &lows,
            b(0.02),
            b(0.2),
            b(0.02),
            Position::Short,
            b(102.39)
        )
        .unwrap())
    );
}

fn dms_fixture() -> (Vec<u64>, Vec<u64>, Vec<u64>) {
    (
        vb(&[100.83, 100.91, 101.03, 101.27, 100.52, 101.27, 101.03, 100.91, 100.83]),
        vb(&[100.59, 100.72, 100.84, 100.91, 99.85, 100.91, 100.84, 100.72, 100.59]),
        vb(&[100.76, 100.88, 100.96, 101.14, 100.01, 101.14, 100.96, 100.88, 100.76]),
    )
}

#[test]
fn bulk_directional_movement_system_ma() {
    let (highs, lows, close) = dms_fixture();
    assert_eq!(
        vec![
            (
                101.35135135135205,
                25.675675675675546,
                27.733956062965074,
                39.31871283052075
            ),
            (0.0, 51.61290322580615, 59.92907801418446, 42.118401465704885)
        ],
        quads(
            bulk::directional_movement_system(
                &highs,
                &lows,
                &close,
                3_usize,
                ConstantModelType::SimpleMovingAverage
            )
            .unwrap()
        )
    );
}

#[test]
fn bulk_directional_movement_system_sma() {
    let (highs, lows, close) = dms_fixture();
    assert_eq!(
        vec![
            (
                101.35135135135205,
                25.675675675675546,
                35.32133395242147,
                36.779255271063406
            ),
            (0.0, 51.61290322580615, 70.43673012318037, 45.73378077439598)
        ],
        quads(
            bulk::directional_movement_system(
                &highs,
                &lows,
                &close,
                3_usize,
                ConstantModelType::SmoothedMovingAverage
            )
            .unwrap()
        )
    );
}

#[test]
fn bulk_directional_movement_system_ema() {
    let (highs, lows, close) = dms_fixture();
    assert_eq!(
        vec![
            (
                101.35135135135205,
                25.675675675675546,
                40.3054340573803,
                35.31343744877174
            ),
            (0.0, 51.61290322580615, 77.05167173252289, 48.30984349271556)
        ],
        quads(
            bulk::directional_movement_system(
                &highs,
                &lows,
                &close,
                3_usize,
                ConstantModelType::ExponentialMovingAverage
            )
            .unwrap()
        )
    );
}

#[test]
fn bulk_directional_movement_system_pma() {
    let (highs, lows, close) = dms_fixture();
    assert_eq!(
        vec![
            (
                101.35135135135205,
                25.675675675675546,
                47.99680889790824,
                33.38241876418677
            ),
            (
                0.0,
                51.61290322580615,
                86.78945697046689,
                52.614232280421646
            )
        ],
        quads(
            bulk::directional_movement_system(
                &highs,
                &lows,
                &close,
                3_usize,
                ConstantModelType::PersonalisedMovingAverage {
                    alpha_num: 5.0f64.to_bits(),
                    alpha_den: 4.0f64.to_bits()
                }
            )
            .unwrap()
        )
    );
}

#[test]
fn bulk_directional_movement_system_median() {
    let (highs, lows, close) = dms_fixture();
    assert_eq!(
        vec![
            (
                101.35135135135205,
                25.675675675675546,
                20.212765957446617,
                34.75427030266704
            ),
            (
                0.0,
                51.61290322580615,
                59.574468085106766,
                39.89361702127669
            )
        ],
        quads(
            bulk::directional_movement_system(
                &highs,
                &lows,
                &close,
                3_usize,
                ConstantModelType::SimpleMovingMedian
            )
            .unwrap()
        )
    );
}

#[test]
fn bulk_directional_movement_system_mode() {
    let (highs, lows, close) = dms_fixture();
    assert_eq!(
        vec![
            (
                101.35135135135205,
                25.675675675675546,
                27.666666666666668,
                39.166666666666664
            ),
            (0.0, 51.61290322580615, 60.0, 42.0)
        ],
        quads(
            bulk::directional_movement_system(
                &highs,
                &lows,
                &close,
                3_usize,
                ConstantModelType::SimpleMovingMode
            )
            .unwrap()
        )
    );
}

#[test]
fn directional_movement_system_mismatched_lengths() {
    let (highs, lows, close) = dms_fixture();
    let short_highs = &highs[..8];
    let result =
        bulk::directional_movement_system(short_highs, &lows, &close, 3, ConstantModelType::SimpleMovingAverage);
    assert!(matches!(
        result,
        Err(TechnicalIndicatorError::MismatchedLength { .. })
    ));
}

#[test]
fn directional_movement_system_period_zero() {
    let (highs, lows, close) = dms_fixture();
    let result =
        bulk::directional_movement_system(&highs, &lows, &close, 0, ConstantModelType::SimpleMovingAverage);
    assert!(matches!(
        result,
        Err(TechnicalIndicatorError::InvalidPeriod { .. })
    ));
}

#[test]
fn directional_movement_system_too_short() {
    let (highs, lows, close) = dms_fixture();
    let result =
        bulk::directional_movement_system(&highs, &lows, &close, 4, ConstantModelType::SimpleMovingAverage);
    assert!(matches!(
        result,
        Err(TechnicalIndicatorError::InvalidPeriod { .. })
    ));
}

#[test]
fn parabolic_time_price_system_mismatched_lengths() {
    let highs = vb(&[99.48, 96.93, 94.66, 102.79, 105.81]);
    let lows = vb(&[91.22, 89.12, 87.35, 88.57]);
    let result = bulk::parabolic_time_price_system(
        &highs,
        &lows,
        b(0.02),
        b(0.2),
        b(0.02),
        Position::Long,
        b(90.58),
    );
    assert!(matches!(
        result,
        Err(TechnicalIndicatorError::MismatchedLength { .. })
    ));
}

#[test]
fn parabolic_time_price_system_empty_is_error() {
    let highs: Vec<u64> = Vec::new();
    let lows: Vec<u64> = Vec::new();
    let result = bulk::parabolic_time_price_system(
        &highs,
        &lows,
        b(0.02),
        b(0.2),
        b(0.02),
        Position::Long,
        b(90.58),
    );
    assert!(matches!(result, Err(TechnicalIndicatorError::EmptyData { .. })));
}

#[test]
fn bulk_parabolic_time_price_system_long_run_ratchet() {
    // a long trend where the acceleration factor ratchets all the way
    // to its cap, flips short near the top, and flips long again at
    // the end
    let highs = vb(&[
        52.35, 52.1, 51.8, 52.1, 52.5, 52.8, 52.5, 53.5, 53.5, 53.8, 54.2, 53.4, 53.5, 54.4,
        55.2, 55.7, 57.0, 57.5, 58.0, 57.7, 58.0, 57.5, 57.0, 56.7, 57.5, 56.7, 56.0, 56.2,
        54.8, 55.5, 54.7, 54.0, 52.5, 51.0, 51.5, 51.7, 53.0,
    ]);
    let lows = vb(&[
        51.5, 51.0, 50.5, 51.25, 51.7, 51.85, 51.5, 52.5, 52.5, 53.0, 52.5, 52.5, 52.1, 53.0,
        54.0, 55.0, 56.0, 56.5, 57.0, 56.5, 57.3, 56.7, 56.3, 56.2, 56.0, 55.5, 55.0, 54.9,
        54.0, 54.5, 53.8, 53.0, 51.5, 50.0, 50.5, 50.2, 51.5,
    ]);
    assert_eq!(
        vec![
            50.047, 50.093059999999994, 50.1381988, 50.182434824, 50.27513743104,
            50.4266291851776, 50.56903143406695, 50.803508919341596, 51.01922820579427,
            51.29730538521484, 51.64562873898906, 51.95215329031037, 52.1, 52.1,
            52.596000000000004, 53.154720000000005, 53.923776000000004, 54.639020800000004,
            55.311216640000005, 55.848973312000005, 56.279178649600006, 56.623342919680006,
            57.966, 57.895360000000004, 57.781638400000006, 57.599107328, 57.3391965952,
            57.046493003776, 56.61998398324736, 56.25318622559273, 55.86067642949789,
            55.34575467218827, 54.57660373775062, 53.66128299020049, 52.929026392160395,
            52.34322111372832, 50.06
        ],
        uv(bulk::parabolic_time_price_system(
            &highs,
            &lows,
            b(0.02),
            b(0.2),
            b(0.02),
            Position::Long,
            b(50.0)
        )
        .unwrap())
    );
}
