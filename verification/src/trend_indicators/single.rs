//! Single-step stop-and-reverse points.

use vstd::prelude::*;
use crate::fp::{add_bits, f_add, f_max2, f_min2, f_mul, f_sub, fmax2, fmin2, mul_bits, sub_bits};

verus! {

/// The next long stop-and-reverse point:
/// `min(previous + af·(extreme - previous), low)`.
pub open spec fn long_sar_spec(previous_sar: u64, extreme_point: u64, af: u64, low: u64) -> u64 {
    f_min2(add_bits(previous_sar, mul_bits(af, sub_bits(extreme_point, previous_sar))), low)
}

/// The next short stop-and-reverse point:
/// `max(previous - af·(previous - extreme), high)`.
pub open spec fn short_sar_spec(previous_sar: u64, extreme_point: u64, af: u64, high: u64) -> u64 {
    f_max2(sub_bits(previous_sar, mul_bits(af, sub_bits(previous_sar, extreme_point))), high)
}

/// Calculates the long Stop and Reverse point for the Parabolic Time
/// Price System: the accelerated trail capped by the given low.
pub fn long_parabolic_time_price_system(
    previous_sar: u64,
    extreme_point: u64,
    acceleration_factor: u64,
    low: u64,
) -> (r: u64)
    ensures
        r == long_sar_spec(previous_sar, extreme_point, acceleration_factor, low),
{
    let sar = f_add(previous_sar, f_mul(acceleration_factor, f_sub(extreme_point, previous_sar)));
    fmin2(sar, low)
}

/// Calculates the short Stop and Reverse point for the Parabolic Time
/// Price System: the accelerated trail floored by the given high.
pub fn short_parabolic_time_price_system(
    previous_sar: u64,
    extreme_point: u64,
    acceleration_factor: u64,
    high: u64,
) -> (r: u64)
    ensures
        r == short_sar_spec(previous_sar, extreme_point, acceleration_factor, high),
{
    let sar = f_sub(previous_sar, f_mul(acceleration_factor, f_sub(previous_sar, extreme_point)));
    fmax2(sar, high)
}

} // verus!
