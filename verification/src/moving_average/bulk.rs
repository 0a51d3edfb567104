//! A moving average for each full window of consecutive prices.

use vstd::prelude::*;
use crate::error::TechnicalIndicatorError;
use crate::moving_average::single;
use crate::moving_average::single::moving_average_spec;
use crate::types::MovingAverageType;
use crate::validation::assert_period;

verus! {

/// Calculates the moving average of each window of `period` prices.
///
/// Errors exactly as `assert_period` does.
pub fn moving_average(prices: &[u64], ma_type: MovingAverageType, period: usize) -> (r: Result<
    Vec<u64>,
    TechnicalIndicatorError,
>)
    ensures
        r is Ok <==> 0 < period <= prices@.len(),
        r matches Ok(v) ==> {
            &&& v@.len() == prices@.len() - period + 1
            &&& forall|i: int|
                0 <= i < v@.len() ==> #[trigger] v@[i] == moving_average_spec(
                    prices@.subrange(i, i + period),
                    ma_type,
                )
        },
        r is Err ==> r matches Err(TechnicalIndicatorError::InvalidPeriod { .. }),
{
    assert_period(period, prices.len())?;
    let n = prices.len();
    let count = n - period + 1;
    let mut out: Vec<u64> = Vec::new();
    let mut i: usize = 0;
    while i < count
        invariant
            n == prices@.len(),
            0 < period <= n,
            count == n - period + 1,
            i <= count,
            out@.len() == i,
            forall|j: int|
                0 <= j < i ==> #[trigger] out@[j] == moving_average_spec(
                    prices@.subrange(j, j + period),
                    ma_type,
                ),
        decreases count - i,
    {
        let w = single::moving_average(&prices[i..i + period], ma_type);
        out.push(w);
        i = i + 1;
    }
    Ok(out)
}

} // verus!
