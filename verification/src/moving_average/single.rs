//! One moving-average value for a whole slice of prices.

use vstd::prelude::*;
use crate::basic_indicators::single::mean_spec;
use crate::basic_indicators::single;
use crate::fp::{
    add_bits, div_bits, f_add, f_div, f_mul, f_of_usize, f_sub, mul_bits, of_u64_bits, sub_bits,
    F_ONE, F_TWO, F_ZERO,
};
use crate::types::MovingAverageType;

verus! {

/// The weighted fold over the `n` newest prices: the running weighted
/// sum, the running weight total, and the next weight, each updated
/// with IEEE arithmetic while walking from the newest price backwards.
pub open spec fn pma_fold(s: Seq<u64>, n: int, m: u64) -> (u64, u64, u64)
    decreases n,
{
    if n <= 0 {
        (F_ZERO, F_ZERO, F_ONE)
    } else {
        let p = pma_fold(s, n - 1, m);
        (
            add_bits(p.0, mul_bits(s[s.len() - n], p.2)),
            add_bits(p.1, p.2),
            mul_bits(p.2, m),
        )
    }
}

/// The personalised moving average: smoothing factor
/// `alpha = alpha_num / (length + alpha_den)`, weights `(1 - alpha)^i`
/// over the prices from newest to oldest, normalized by the weight sum.
pub open spec fn personalised_ma_spec(s: Seq<u64>, alpha_num: u64, alpha_den: u64) -> u64 {
    let alpha = div_bits(alpha_num, add_bits(of_u64_bits(s.len() as u64), alpha_den));
    let m = sub_bits(F_ONE, alpha);
    let f = pma_fold(s, s.len() as int, m);
    div_bits(f.0, f.1)
}

/// The moving average selected by the type tag: the plain mean, or the
/// personalised average with `alpha = 1/length` (smoothed),
/// `alpha = 2/(length+1)` (exponential), or caller-supplied parameters.
pub open spec fn moving_average_spec(s: Seq<u64>, ma_type: MovingAverageType) -> u64 {
    match ma_type {
        MovingAverageType::Simple => mean_spec(s),
        MovingAverageType::Smoothed => personalised_ma_spec(s, F_ONE, F_ZERO),
        MovingAverageType::Exponential => personalised_ma_spec(s, F_TWO, F_ONE),
        MovingAverageType::Personalised { alpha_num, alpha_den } => personalised_ma_spec(
            s,
            alpha_num,
            alpha_den,
        ),
    }
}

/// Computes the weighted average for given smoothing parameters.
fn personalised_ma(prices: &[u64], alpha_num: u64, alpha_den: u64) -> (r: u64)
    requires
        prices@.len() > 0,
    ensures
        r == personalised_ma_spec(prices@, alpha_num, alpha_den),
{
    let len = prices.len();
    let alpha = f_div(alpha_num, f_add(f_of_usize(len), alpha_den));
    let m = f_sub(F_ONE, alpha);
    let mut sum: u64 = F_ZERO;
    let mut denom: u64 = F_ZERO;
    let mut w: u64 = F_ONE;
    let mut n: usize = 0;
    while n < len
        invariant
            n <= len,
            len == prices@.len(),
            (sum, denom, w) == pma_fold(prices@, n as int, m),
        decreases len - n,
    {
        sum = f_add(sum, f_mul(prices[len - 1 - n], w));
        denom = f_add(denom, w);
        w = f_mul(w, m);
        n = n + 1;
    }
    f_div(sum, denom)
}

/// Calculates the moving average of a whole slice of prices.
///
/// Requires a non-empty slice.
pub fn moving_average(prices: &[u64], ma_type: MovingAverageType) -> (r: u64)
    requires
        prices@.len() > 0,
    ensures
        r == moving_average_spec(prices@, ma_type),
{
    match ma_type {
        MovingAverageType::Simple => single::mean(prices),
        MovingAverageType::Smoothed => personalised_ma(prices, F_ONE, F_ZERO),
        MovingAverageType::Exponential => personalised_ma(prices, F_TWO, F_ONE),
        MovingAverageType::Personalised { alpha_num, alpha_den } => personalised_ma(
            prices,
            alpha_num,
            alpha_den,
        ),
    }
}

} // verus!
