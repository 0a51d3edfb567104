//! Windowed versions of the single-slice statistics: one result for
//! each full window of `period` consecutive prices.

use vstd::prelude::*;
use crate::basic_indicators::single;
use crate::basic_indicators::single::{mean_spec, median_spec, mode_spec};
use crate::error::TechnicalIndicatorError;
use crate::validation::assert_period;

verus! {

/// Calculates the mean of each window of `period` prices.
///
/// Errors exactly as `assert_period` does: the period must be at least
/// one and at most the data length.
pub fn mean(prices: &[u64], period: usize) -> (r: Result<Vec<u64>, TechnicalIndicatorError>)
    ensures
        r is Ok <==> 0 < period <= prices@.len(),
        r matches Ok(v) ==> {
            &&& v@.len() == prices@.len() - period + 1
            &&& forall|i: int|
                0 <= i < v@.len() ==> #[trigger] v@[i] == mean_spec(
                    prices@.subrange(i, i + period),
                )
        },
        r is Err ==> r matches Err(TechnicalIndicatorError::InvalidPeriod { .. }),
{
    assert_period(period, prices.len())?;
    let n = prices.len();
    let count = n - period + 1;
    let mut out: Vec<u64> = Vec::new();
    let mut i: usize = 0;
    while i < count
        invariant
            n == prices@.len(),
            0 < period <= n,
            count == n - period + 1,
            i <= count,
            out@.len() == i,
            forall|j: int|
                0 <= j < i ==> #[trigger] out@[j] == mean_spec(prices@.subrange(j, j + period)),
        decreases count - i,
    {
        let w = single::mean(&prices[i..i + period]);
        out.push(w);
        i = i + 1;
    }
    Ok(out)
}

/// Calculates the median of each window of `period` prices.
///
/// Errors exactly as `assert_period` does.
pub fn median(prices: &[u64], period: usize) -> (r: Result<Vec<u64>, TechnicalIndicatorError>)
    ensures
        r is Ok <==> 0 < period <= prices@.len(),
        r matches Ok(v) ==> {
            &&& v@.len() == prices@.len() - period + 1
            &&& forall|i: int|
                0 <= i < v@.len() ==> #[trigger] v@[i] == median_spec(
                    prices@.subrange(i, i + period),
                )
        },
        r is Err ==> r matches Err(TechnicalIndicatorError::InvalidPeriod { .. }),
{
    assert_period(period, prices.len())?;
    let n = prices.len();
    let count = n - period + 1;
    let mut out: Vec<u64> = Vec::new();
    let mut i: usize = 0;
    while i < count
        invariant
            n == prices@.len(),
            0 < period <= n,
            count == n - period + 1,
            i <= count,
            out@.len() == i,
            forall|j: int|
                0 <= j < i ==> #[trigger] out@[j] == median_spec(prices@.subrange(j, j + period)),
        decreases count - i,
    {
        let w = single::median(&prices[i..i + period]);
        out.push(w);
        i = i + 1;
    }
    Ok(out)
}

/// Calculates the mode of each window of `period` prices.
///
/// Errors exactly as `assert_period` does.
pub fn mode(prices: &[u64], period: usize) -> (r: Result<Vec<u64>, TechnicalIndicatorError>)
    ensures
        r is Ok <==> 0 < period <= prices@.len(),
        r matches Ok(v) ==> {
            &&& v@.len() == prices@.len() - period + 1
            &&& forall|i: int|
                0 <= i < v@.len() ==> #[trigger] v@[i] == mode_spec(
                    prices@.subrange(i, i + period),
                )
        },
        r is Err ==> r matches Err(TechnicalIndicatorError::InvalidPeriod { .. }),
{
    assert_period(period, prices.len())?;
    let n = prices.len();
    let count = n - period + 1;
    let mut out: Vec<u64> = Vec::new();
    let mut i: usize = 0;
    while i < count
        invariant
            n == prices@.len(),
            0 < period <= n,
            count == n - period + 1,
            i <= count,
            out@.len() == i,
            forall|j: int|
                0 <= j < i ==> #[trigger] out@[j] == mode_spec(prices@.subrange(j, j + period)),
        decreases count - i,
    {
        let w = single::mode(&prices[i..i + period]);
        out.push(w);
        i = i + 1;
    }
    Ok(out)
}

} // verus!
