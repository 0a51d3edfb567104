//! Whole-series scans: the Parabolic Time Price System and the
//! Directional Movement System.

use vstd::prelude::*;
use crate::basic_indicators::single;
use crate::basic_indicators::single::{max_spec, min_spec, no_nans};
use crate::error::TechnicalIndicatorError;
use crate::basic_indicators::single::{median_spec, mode_spec, sum_prefix};
use crate::fp::{
    add_bits, cmp_eq, cmp_le, cmp_lt, div_bits, f_abs, f_abs_spec, f_add, f_div, f_eq, f_le, f_lt,
    f_max2, f_mul, f_sub, fmax2, mul_bits, sub_bits, F_HUNDRED, F_TENTH_MICRO, F_TWO, F_ZERO,
};
use crate::moving_average::single::moving_average_spec;
use crate::types::{ConstantModelType, MovingAverageType};
use crate::trend_indicators::single::{
    long_parabolic_time_price_system, long_sar_spec, short_parabolic_time_price_system,
    short_sar_spec,
};
use crate::types::Position;
use crate::validation::{assert_non_empty, assert_period};

verus! {

/// The first stop-and-reverse value: from the caller-supplied previous
/// SAR, or from the first bar itself when that is zero.
pub open spec fn sar_first(
    highs: Seq<u64>,
    lows: Seq<u64>,
    af_start: u64,
    start_position: Position,
    previous_sar: u64,
) -> u64 {
    match start_position {
        Position::Long => if f_eq(previous_sar, F_ZERO) {
            long_sar_spec(lows[0], highs[0], af_start, lows[0])
        } else {
            long_sar_spec(previous_sar, highs[0], af_start, lows[0])
        },
        Position::Short => if f_eq(previous_sar, F_ZERO) {
            short_sar_spec(highs[0], lows[0], af_start, highs[0])
        } else {
            short_sar_spec(previous_sar, lows[0], af_start, highs[0])
        },
    }
}

/// One bar of the stop-and-reverse scan.  The state is the emitted
/// SAR values, the position, the acceleration factor and the index
/// where the current position started.  A short position flips long
/// when the high crosses the previous SAR, pivoting on the lowest low
/// since the last flip; while it holds, a new low ratchets the
/// acceleration factor (capped near `af_max`) and the higher of the
/// last two highs floors the trail.  The long side mirrors this.
pub open spec fn sar_step(
    highs: Seq<u64>,
    lows: Seq<u64>,
    af_start: u64,
    af_max_adj: u64,
    af_step: u64,
    st: (Seq<u64>, Position, u64, int),
    i: int,
) -> (Seq<u64>, Position, u64, int) {
    let prev = st.0.last();
    let af = st.2;
    let pos_start = st.3;
    if st.1 == Position::Short && f_lt(prev, highs[i]) {
        let period_max = highs[i];
        let previous_min = min_spec(lows.subrange(i - 1, i + 1));
        let pivoted = min_spec(lows.subrange(pos_start, i));
        (
            st.0.push(long_sar_spec(pivoted, period_max, af_start, previous_min)),
            Position::Long,
            af_start,
            i,
        )
    } else if st.1 == Position::Short {
        let pm = min_spec(lows.subrange(pos_start, i));
        let hit = f_lt(lows[i], pm);
        let period_min = if hit {
            lows[i]
        } else {
            pm
        };
        let af2 = if hit && f_le(af, af_max_adj) {
            add_bits(af, af_step)
        } else {
            af
        };
        let previous_max = max_spec(highs.subrange(i - 1, i + 1));
        (
            st.0.push(short_sar_spec(prev, period_min, af2, previous_max)),
            Position::Short,
            af2,
            pos_start,
        )
    } else if f_lt(lows[i], prev) {
        let period_min = lows[i];
        let previous_max = max_spec(highs.subrange(i - 1, i + 1));
        let pivoted = max_spec(highs.subrange(pos_start, i));
        (
            st.0.push(short_sar_spec(pivoted, period_min, af_start, previous_max)),
            Position::Short,
            af_start,
            i,
        )
    } else {
        let pm = max_spec(highs.subrange(pos_start, i));
        let hit = f_lt(pm, highs[i]);
        let period_max = if hit {
            highs[i]
        } else {
            pm
        };
        let af2 = if hit && f_le(af, af_max_adj) {
            add_bits(af, af_step)
        } else {
            af
        };
        let previous_min = min_spec(lows.subrange(i - 1, i + 1));
        (
            st.0.push(long_sar_spec(prev, period_max, af2, previous_min)),
            Position::Long,
            af2,
            pos_start,
        )
    }
}

/// The scan state after the first `n` bars.
pub open spec fn sar_fold(
    highs: Seq<u64>,
    lows: Seq<u64>,
    af_start: u64,
    af_max_adj: u64,
    af_step: u64,
    start_position: Position,
    previous_sar: u64,
    n: int,
) -> (Seq<u64>, Position, u64, int)
    decreases n,
{
    if n <= 1 {
        (
            seq![sar_first(highs, lows, af_start, start_position, previous_sar)],
            start_position,
            af_start,
            0,
        )
    } else {
        sar_step(
            highs,
            lows,
            af_start,
            af_max_adj,
            af_step,
            sar_fold(highs, lows, af_start, af_max_adj, af_step, start_position, previous_sar, n - 1),
            n - 1,
        )
    }
}

/// The whole trajectory of stop-and-reverse points.
pub open spec fn sar_spec(
    highs: Seq<u64>,
    lows: Seq<u64>,
    af_start: u64,
    af_max: u64,
    af_step: u64,
    start_position: Position,
    previous_sar: u64,
) -> Seq<u64> {
    sar_fold(
        highs,
        lows,
        af_start,
        sub_bits(af_max, F_TENTH_MICRO),
        af_step,
        start_position,
        previous_sar,
        highs.len() as int,
    ).0
}

/// Calculates the Parabolic Time Price System stop-and-reverse points.
///
/// Starts from the caller's previous SAR (or the first bar when it is
/// zero) and scans bar by bar, flipping between the long and short
/// regimes as prices cross the trail; a small tolerance is taken off
/// `acceleration_factor_max` so that rounding in the ratchet cannot
/// block its final increment.  Requires NaN-free highs and lows;
/// errors when either series is empty or their lengths differ.
pub fn parabolic_time_price_system(
    highs: &[u64],
    lows: &[u64],
    acceleration_factor_start: u64,
    acceleration_factor_max: u64,
    acceleration_factor_step: u64,
    start_position: Position,
    previous_sar: u64,
) -> (r: Result<Vec<u64>, TechnicalIndicatorError>)
    requires
        no_nans(highs@),
        no_nans(lows@),
    ensures
        r is Ok <==> (highs@.len() > 0 && highs@.len() == lows@.len()),
        r matches Ok(v) ==> {
            &&& v@.len() == highs@.len()
            &&& v@ == sar_spec(
                highs@,
                lows@,
                acceleration_factor_start,
                acceleration_factor_max,
                acceleration_factor_step,
                start_position,
                previous_sar,
            )
        },
        highs@.len() == 0 ==> r matches Err(TechnicalIndicatorError::EmptyData { .. }),
        highs@.len() > 0 && highs@.len() != lows@.len() ==> r matches Err(
            TechnicalIndicatorError::MismatchedLength { .. },
        ),
{
    assert_non_empty("highs", highs)?;
    if highs.len() != lows.len() {
        let mut names: Vec<(String, usize)> = Vec::new();
        names.push(("highs".to_owned(), highs.len()));
        names.push(("lows".to_owned(), lows.len()));
        return Err(TechnicalIndicatorError::MismatchedLength { names });
    }
    let length = highs.len();
    let af_start = acceleration_factor_start;
    let af_max_adj = f_sub(acceleration_factor_max, F_TENTH_MICRO);
    let af_step = acceleration_factor_step;
    let mut sars: Vec<u64> = Vec::new();
    let mut position = start_position;
    let mut acceleration_factor = af_start;
    let mut position_start: usize = 0;
    let first = match position {
        Position::Long => {
            if cmp_eq(previous_sar, F_ZERO) {
                long_parabolic_time_price_system(lows[0], highs[0], acceleration_factor, lows[0])
            } else {
                long_parabolic_time_price_system(
                    previous_sar,
                    highs[0],
                    acceleration_factor,
                    lows[0],
                )
            }
        },
        Position::Short => {
            if cmp_eq(previous_sar, F_ZERO) {
                short_parabolic_time_price_system(highs[0], lows[0], acceleration_factor, highs[0])
            } else {
                short_parabolic_time_price_system(
                    previous_sar,
                    lows[0],
                    acceleration_factor,
                    highs[0],
                )
            }
        },
    };
    sars.push(first);
    let mut i: usize = 1;
    while i < length
        invariant
            1 <= i <= length,
            length == highs@.len() == lows@.len(),
            no_nans(highs@),
            no_nans(lows@),
            ({
                let st = sar_fold(
                    highs@,
                    lows@,
                    af_start,
                    af_max_adj,
                    af_step,
                    start_position,
                    previous_sar,
                    i as int,
                );
                &&& sars@ == st.0
                &&& position == st.1
                &&& acceleration_factor == st.2
                &&& position_start as int == st.3
            }),
            sars@.len() == i,
            position_start < i,
        decreases length - i,
    {
        let previous = sars[i - 1];
        let flip_long = match position {
            Position::Short => cmp_lt(previous, highs[i]),
            Position::Long => false,
        };
        let is_short = match position {
            Position::Short => true,
            Position::Long => false,
        };
        if is_short && flip_long {
            let period_max = highs[i];
            let previous_min = single::min(&lows[i - 1..i + 1]);
            acceleration_factor = af_start;
            let pivoted_sar = single::min(&lows[position_start..i]);
            position = Position::Long;
            position_start = i;
            sars.push(
                long_parabolic_time_price_system(
                    pivoted_sar,
                    period_max,
                    acceleration_factor,
                    previous_min,
                ),
            );
        } else if is_short {
            let mut period_min = single::min(&lows[position_start..i]);
            if cmp_lt(lows[i], period_min) {
                period_min = lows[i];
                if cmp_le(acceleration_factor, af_max_adj) {
                    acceleration_factor = f_add(acceleration_factor, af_step);
                }
            }
            let previous_max = single::max(&highs[i - 1..i + 1]);
            sars.push(
                short_parabolic_time_price_system(
                    previous,
                    period_min,
                    acceleration_factor,
                    previous_max,
                ),
            );
        } else if cmp_lt(lows[i], previous) {
            let period_min = lows[i];
            acceleration_factor = af_start;
            let previous_max = single::max(&highs[i - 1..i + 1]);
            let pivoted_sar = single::max(&highs[position_start..i]);
            position = Position::Short;
            position_start = i;
            sars.push(
                short_parabolic_time_price_system(
                    pivoted_sar,
                    period_min,
                    acceleration_factor,
                    previous_max,
                ),
            );
        } else {
            let mut period_max = single::max(&highs[position_start..i]);
            if cmp_lt(period_max, highs[i]) {
                period_max = highs[i];
                if cmp_le(acceleration_factor, af_max_adj) {
                    acceleration_factor = f_add(acceleration_factor, af_step);
                }
            }
            let previous_min = single::min(&lows[i - 1..i + 1]);
            sars.push(
                long_parabolic_time_price_system(
                    previous,
                    period_max,
                    acceleration_factor,
                    previous_min,
                ),
            );
        }
        i = i + 1;
    }
    Ok(sars)
}


// ---------------------------------------------------------------------
// The Directional Movement System.
// ---------------------------------------------------------------------

/// The positive directional movement of bar `j+1`: the high advance
/// when it is positive and beats the low decline.
pub open spec fn dm_plus_at(h: Seq<u64>, l: Seq<u64>, j: int) -> u64 {
    let hd = sub_bits(h[j + 1], h[j]);
    let ld = sub_bits(l[j], l[j + 1]);
    if f_lt(F_ZERO, hd) && f_lt(ld, hd) {
        hd
    } else {
        F_ZERO
    }
}

/// The negative directional movement of bar `j+1`.
pub open spec fn dm_minus_at(h: Seq<u64>, l: Seq<u64>, j: int) -> u64 {
    let hd = sub_bits(h[j + 1], h[j]);
    let ld = sub_bits(l[j], l[j + 1]);
    if f_lt(F_ZERO, ld) && f_lt(hd, ld) {
        ld
    } else {
        F_ZERO
    }
}

/// The true range of bar `j+1`: the largest of the high-low span and
/// the absolute distances of high and low from the close.
pub open spec fn tr_at(h: Seq<u64>, l: Seq<u64>, c: Seq<u64>, j: int) -> u64 {
    let hh = h[j + 1];
    let ll = l[j + 1];
    let cc = c[j + 1];
    f_max2(
        f_max2(sub_bits(hh, ll), f_abs_spec(sub_bits(hh, cc))),
        f_abs_spec(sub_bits(ll, cc)),
    )
}

/// All true ranges from the second bar on.
pub open spec fn tr_seq(h: Seq<u64>, l: Seq<u64>, c: Seq<u64>) -> Seq<u64> {
    Seq::new((h.len() - 1) as nat, |j: int| tr_at(h, l, c, j))
}

/// All positive directional movements from the second bar on.
pub open spec fn pdm_seq(h: Seq<u64>, l: Seq<u64>) -> Seq<u64> {
    Seq::new((h.len() - 1) as nat, |j: int| dm_plus_at(h, l, j))
}

/// All negative directional movements from the second bar on.
pub open spec fn ndm_seq(h: Seq<u64>, l: Seq<u64>) -> Seq<u64> {
    Seq::new((h.len() - 1) as nat, |j: int| dm_minus_at(h, l, j))
}

/// The sum of a whole window of a sequence.
pub open spec fn window_sum(s: Seq<u64>, lo: int, hi: int) -> u64 {
    sum_prefix(s.subrange(lo, hi), hi - lo)
}

/// The positive directional indicator at output position `k`:
/// `100 · ΣDM+ / ΣTR` over the window of `period` bars ending before
/// bar `period + k + 1`.
pub open spec fn di_plus_at(h: Seq<u64>, l: Seq<u64>, c: Seq<u64>, period: int, k: int) -> u64 {
    mul_bits(
        div_bits(window_sum(pdm_seq(h, l), k, k + period), window_sum(tr_seq(h, l, c), k, k + period)),
        F_HUNDRED,
    )
}

/// The negative directional indicator at output position `k`.
pub open spec fn di_minus_at(h: Seq<u64>, l: Seq<u64>, c: Seq<u64>, period: int, k: int) -> u64 {
    mul_bits(
        div_bits(window_sum(ndm_seq(h, l), k, k + period), window_sum(tr_seq(h, l, c), k, k + period)),
        F_HUNDRED,
    )
}

/// The directional index at output position `k`:
/// `100 · |DI+ - DI-| / (DI+ + DI-)`.
pub open spec fn dx_at(h: Seq<u64>, l: Seq<u64>, c: Seq<u64>, period: int, k: int) -> u64 {
    let p = di_plus_at(h, l, c, period, k);
    let n = di_minus_at(h, l, c, period, k);
    mul_bits(div_bits(f_abs_spec(sub_bits(p, n)), add_bits(p, n)), F_HUNDRED)
}

/// All directional index values.
pub open spec fn dx_seq(h: Seq<u64>, l: Seq<u64>, c: Seq<u64>, period: int) -> Seq<u64> {
    Seq::new((h.len() - period) as nat, |k: int| dx_at(h, l, c, period, k))
}

/// One smoothed value of a window of the directional index series,
/// under the chosen constant model.
pub open spec fn adx_at(dxs: Seq<u64>, period: int, model: ConstantModelType, k: int) -> u64 {
    let w = dxs.subrange(k, k + period);
    match model {
        ConstantModelType::SimpleMovingAverage => moving_average_spec(w, MovingAverageType::Simple),
        ConstantModelType::SmoothedMovingAverage => moving_average_spec(
            w,
            MovingAverageType::Smoothed,
        ),
        ConstantModelType::ExponentialMovingAverage => moving_average_spec(
            w,
            MovingAverageType::Exponential,
        ),
        ConstantModelType::PersonalisedMovingAverage { alpha_num, alpha_den } => moving_average_spec(
            w,
            MovingAverageType::Personalised { alpha_num, alpha_den },
        ),
        ConstantModelType::SimpleMovingMedian => median_spec(w),
        ConstantModelType::SimpleMovingMode => mode_spec(w),
    }
}

/// The average directional index rating at output position `k`: the
/// mean of the smoothed values one `period` apart.
pub open spec fn adxr_at(dxs: Seq<u64>, period: int, model: ConstantModelType, k: int) -> u64 {
    div_bits(add_bits(adx_at(dxs, period, model, k), adx_at(dxs, period, model, k + period - 1)), F_TWO)
}

/// The whole directional movement system: one
/// `(DI+, DI-, ADX, ADXR)` tuple per output bar.
pub open spec fn dms_spec(
    h: Seq<u64>,
    l: Seq<u64>,
    c: Seq<u64>,
    period: int,
    model: ConstantModelType,
) -> Seq<(u64, u64, u64, u64)> {
    let dxs = dx_seq(h, l, c, period);
    Seq::new(
        (h.len() - 3 * period + 2) as nat,
        |k: int|
            (
                di_plus_at(h, l, c, period, k + 2 * period - 2),
                di_minus_at(h, l, c, period, k + 2 * period - 2),
                adx_at(dxs, period, model, k + period - 1),
                adxr_at(dxs, period, model, k),
            ),
    )
}

/// Sums a whole slice with IEEE addition, left to right from `+0.0`.
fn sum_slice(w: &[u64]) -> (r: u64)
    ensures
        r == sum_prefix(w@, w@.len() as int),
{
    let mut acc: u64 = F_ZERO;
    let mut i: usize = 0;
    while i < w.len()
        invariant
            i <= w@.len(),
            acc == sum_prefix(w@, i as int),
        decreases w@.len() - i,
    {
        acc = f_add(acc, w[i]);
        i = i + 1;
    }
    acc
}

/// Calculates the directional movement system.
///
/// Derives the per-bar directional movements and true ranges, sums
/// them over rolling windows into the two directional indicators,
/// condenses each window pair into the directional index, smooths that
/// series under the chosen constant model into the ADX, and averages
/// ADX values one period apart into the ADXR.  Errors when the three
/// series differ in length, are empty, are shorter than three periods,
/// or the period is zero.
pub fn directional_movement_system(
    high: &[u64],
    low: &[u64],
    close: &[u64],
    period: usize,
    constant_model_type: ConstantModelType,
) -> (r: Result<Vec<(u64, u64, u64, u64)>, TechnicalIndicatorError>)
    ensures
        r is Ok <==> (high@.len() == low@.len() && high@.len() == close@.len() && high@.len() > 0
            && 0 < period && 3 * period <= high@.len()),
        r matches Ok(v) ==> {
            &&& v@.len() == high@.len() - 3 * period + 2
            &&& v@ == dms_spec(high@, low@, close@, period as int, constant_model_type)
        },
        !(high@.len() == low@.len() && high@.len() == close@.len()) ==> r matches Err(
            TechnicalIndicatorError::MismatchedLength { .. },
        ),
        high@.len() == low@.len() && high@.len() == close@.len() && high@.len() == 0 ==> r matches Err(
            TechnicalIndicatorError::EmptyData { .. },
        ),
        high@.len() == low@.len() && high@.len() == close@.len() && high@.len() > 0 && !(0 < period
            && 3 * period <= high@.len()) ==> r matches Err(
            TechnicalIndicatorError::InvalidPeriod { .. },
        ),
{
    let length = high.len();
    if length != low.len() || length != close.len() {
        let mut names: Vec<(String, usize)> = Vec::new();
        names.push(("high".to_owned(), high.len()));
        names.push(("low".to_owned(), low.len()));
        names.push(("close".to_owned(), close.len()));
        return Err(TechnicalIndicatorError::MismatchedLength { names });
    }
    assert_non_empty("high", high)?;
    if period > length / 3 {
        return Err(TechnicalIndicatorError::InvalidPeriod {
            period,
            data_len: length,
            reason: "the data must hold at least three periods".to_owned(),
        });
    }
    assert_period(period, length)?;
    proof {
        assert(3 * period <= length);
    }
    let mut positive_dm: Vec<u64> = Vec::new();
    let mut negative_dm: Vec<u64> = Vec::new();
    let mut i: usize = 1;
    while i < length
        invariant
            1 <= i <= length,
            length == high@.len() == low@.len(),
            positive_dm@.len() == i - 1,
            negative_dm@.len() == i - 1,
            forall|j: int|
                0 <= j < i - 1 ==> #[trigger] positive_dm@[j] == dm_plus_at(high@, low@, j),
            forall|j: int|
                0 <= j < i - 1 ==> #[trigger] negative_dm@[j] == dm_minus_at(high@, low@, j),
        decreases length - i,
    {
        let high_diff = f_sub(high[i], high[i - 1]);
        let low_diff = f_sub(low[i - 1], low[i]);
        if cmp_lt(F_ZERO, high_diff) && cmp_lt(low_diff, high_diff) {
            positive_dm.push(high_diff);
            negative_dm.push(F_ZERO);
        } else if cmp_lt(F_ZERO, low_diff) && cmp_lt(high_diff, low_diff) {
            negative_dm.push(low_diff);
            positive_dm.push(F_ZERO);
        } else {
            positive_dm.push(F_ZERO);
            negative_dm.push(F_ZERO);
        }
        i = i + 1;
    }
    let mut tr: Vec<u64> = Vec::new();
    let mut j: usize = 0;
    while j + 1 < length
        invariant
            length == high@.len() == low@.len() == close@.len(),
            j <= length - 1,
            tr@.len() == j,
            forall|t: int| 0 <= t < j ==> #[trigger] tr@[t] == tr_at(high@, low@, close@, t),
        decreases length - j,
    {
        let hh = high[j + 1];
        let ll = low[j + 1];
        let cc = close[j + 1];
        let a = f_sub(hh, ll);
        let b = f_abs(f_sub(hh, cc));
        let d = f_abs(f_sub(ll, cc));
        tr.push(fmax2(fmax2(a, b), d));
        j = j + 1;
    }
    proof {
        assert(positive_dm@ =~= pdm_seq(high@, low@));
        assert(negative_dm@ =~= ndm_seq(high@, low@));
        assert(tr@ =~= tr_seq(high@, low@, close@));
    }
    let mut positive_di: Vec<u64> = Vec::new();
    let mut negative_di: Vec<u64> = Vec::new();
    let mut m: usize = period;
    while m < length
        invariant
            period <= m <= length,
            0 < period,
            3 * period <= length,
            length == high@.len() == low@.len() == close@.len(),
            positive_dm@ == pdm_seq(high@, low@),
            negative_dm@ == ndm_seq(high@, low@),
            tr@ == tr_seq(high@, low@, close@),
            positive_dm@.len() == length - 1,
            negative_dm@.len() == length - 1,
            tr@.len() == length - 1,
            positive_di@.len() == m - period,
            negative_di@.len() == m - period,
            forall|k: int|
                0 <= k < m - period ==> #[trigger] positive_di@[k] == di_plus_at(
                    high@,
                    low@,
                    close@,
                    period as int,
                    k,
                ),
            forall|k: int|
                0 <= k < m - period ==> #[trigger] negative_di@[k] == di_minus_at(
                    high@,
                    low@,
                    close@,
                    period as int,
                    k,
                ),
        decreases length - m,
    {
        let tr_sum = sum_slice(&tr[m - period..m]);
        let pdm_sum = sum_slice(&positive_dm[m - period..m]);
        let ndm_sum = sum_slice(&negative_dm[m - period..m]);
        positive_di.push(f_mul(f_div(pdm_sum, tr_sum), F_HUNDRED));
        negative_di.push(f_mul(f_div(ndm_sum, tr_sum), F_HUNDRED));
        m = m + 1;
    }
    let di_count = length - period;
    let mut dx: Vec<u64> = Vec::new();
    let mut q: usize = 0;
    while q < di_count
        invariant
            q <= di_count,
            di_count == length - period,
            0 < period,
            3 * period <= length,
            length == high@.len() == low@.len() == close@.len(),
            positive_di@.len() == di_count,
            negative_di@.len() == di_count,
            forall|k: int|
                0 <= k < di_count ==> #[trigger] positive_di@[k] == di_plus_at(
                    high@,
                    low@,
                    close@,
                    period as int,
                    k,
                ),
            forall|k: int|
                0 <= k < di_count ==> #[trigger] negative_di@[k] == di_minus_at(
                    high@,
                    low@,
                    close@,
                    period as int,
                    k,
                ),
            dx@.len() == q,
            forall|k: int|
                0 <= k < q ==> #[trigger] dx@[k] == dx_at(high@, low@, close@, period as int, k),
        decreases di_count - q,
    {
        let p = positive_di[q];
        let n = negative_di[q];
        let di_diff = f_abs(f_sub(p, n));
        let di_sum = f_add(p, n);
        dx.push(f_mul(f_div(di_diff, di_sum), F_HUNDRED));
        q = q + 1;
    }
    proof {
        assert(dx@ =~= dx_seq(high@, low@, close@, period as int));
    }
    let adx_res = match constant_model_type {
        ConstantModelType::SimpleMovingAverage => crate::moving_average::bulk::moving_average(
            dx.as_slice(),
            MovingAverageType::Simple,
            period,
        ),
        ConstantModelType::SmoothedMovingAverage => crate::moving_average::bulk::moving_average(
            dx.as_slice(),
            MovingAverageType::Smoothed,
            period,
        ),
        ConstantModelType::ExponentialMovingAverage => crate::moving_average::bulk::moving_average(
            dx.as_slice(),
            MovingAverageType::Exponential,
            period,
        ),
        ConstantModelType::PersonalisedMovingAverage { alpha_num, alpha_den } => crate::moving_average::bulk::moving_average(
            dx.as_slice(),
            MovingAverageType::Personalised { alpha_num, alpha_den },
            period,
        ),
        ConstantModelType::SimpleMovingMedian => crate::basic_indicators::bulk::median(
            dx.as_slice(),
            period,
        ),
        ConstantModelType::SimpleMovingMode => crate::basic_indicators::bulk::mode(
            dx.as_slice(),
            period,
        ),
    };
    let adx = match adx_res {
        Ok(v) => v,
        Err(_) => {
            proof {
                assert(false);
            }
            Vec::new()
        },
    };
    proof {
        assert(adx@.len() == length - 2 * period + 1);
        assert(forall|k: int|
            0 <= k < adx@.len() ==> #[trigger] adx@[k] == adx_at(
                dx_seq(high@, low@, close@, period as int),
                period as int,
                constant_model_type,
                k,
            ));
    }
    let adx_len = adx.len();
    let mut adxr: Vec<u64> = Vec::new();
    let mut w: usize = period;
    while w <= adx_len
        invariant
            period <= w <= adx_len + 1,
            0 < period,
            3 * period <= length,
            length == high@.len() == low@.len() == close@.len(),
            adx_len == adx@.len(),
            adx@.len() == length - 2 * period + 1,
            forall|k: int|
                0 <= k < adx@.len() ==> #[trigger] adx@[k] == adx_at(
                    dx_seq(high@, low@, close@, period as int),
                    period as int,
                    constant_model_type,
                    k,
                ),
            adxr@.len() == w - period,
            forall|k: int|
                0 <= k < w - period ==> #[trigger] adxr@[k] == adxr_at(
                    dx_seq(high@, low@, close@, period as int),
                    period as int,
                    constant_model_type,
                    k,
                ),
        decreases adx_len + 1 - w,
    {
        adxr.push(f_div(f_add(adx[w - period], adx[w - 1]), F_TWO));
        w = w + 1;
    }
    let out_count = adxr.len();
    let mut out: Vec<(u64, u64, u64, u64)> = Vec::new();
    let mut k: usize = 0;
    while k < out_count
        invariant
            k <= out_count,
            out_count == adxr@.len(),
            adxr@.len() == length - 3 * period + 2,
            0 < period,
            3 * period <= length,
            length == high@.len() == low@.len() == close@.len(),
            positive_di@.len() == length - period,
            negative_di@.len() == length - period,
            adx@.len() == length - 2 * period + 1,
            forall|t: int|
                0 <= t < positive_di@.len() ==> #[trigger] positive_di@[t] == di_plus_at(
                    high@,
                    low@,
                    close@,
                    period as int,
                    t,
                ),
            forall|t: int|
                0 <= t < negative_di@.len() ==> #[trigger] negative_di@[t] == di_minus_at(
                    high@,
                    low@,
                    close@,
                    period as int,
                    t,
                ),
            forall|t: int|
                0 <= t < adx@.len() ==> #[trigger] adx@[t] == adx_at(
                    dx_seq(high@, low@, close@, period as int),
                    period as int,
                    constant_model_type,
                    t,
                ),
            forall|t: int|
                0 <= t < adxr@.len() ==> #[trigger] adxr@[t] == adxr_at(
                    dx_seq(high@, low@, close@, period as int),
                    period as int,
                    constant_model_type,
                    t,
                ),
            out@.len() == k,
            forall|t: int|
                0 <= t < k ==> #[trigger] out@[t] == dms_spec(
                    high@,
                    low@,
                    close@,
                    period as int,
                    constant_model_type,
                )[t],
        decreases out_count - k,
    {
        out.push(
            (
                positive_di[k + 2 * period - 2],
                negative_di[k + 2 * period - 2],
                adx[k + period - 1],
                adxr[k],
            ),
        );
        k = k + 1;
    }
    proof {
        assert(out@ =~= dms_spec(high@, low@, close@, period as int, constant_model_type));
    }
    Ok(out)
}

} // verus!
