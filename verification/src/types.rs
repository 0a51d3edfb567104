//! Shared configuration enums.
//!
//! Numeric parameters inside variants are bit patterns of IEEE-754
//! doubles, like every other number in this crate.

use vstd::prelude::*;

verus! {

/// What central value to use for calculations.
#[derive(Debug, Copy, Clone, PartialEq, Eq, Structural)]
pub enum CentralPoint {
    Mean,
    Median,
    Mode,
}

/// How to aggregate a set of absolute deviations.
#[derive(Debug, Copy, Clone, PartialEq, Eq, Structural)]
pub enum DeviationAggregate {
    Mean,
    Median,
    Mode,
}

/// Configuration that controls how absolute deviations are computed.
/// Example: center = Median, aggregate = Median gives the true median
/// absolute deviation (median of |x - median|).
#[derive(Debug, Copy, Clone, PartialEq, Eq, Structural)]
pub struct AbsDevConfig {
    pub center: CentralPoint,
    pub aggregate: DeviationAggregate,
}

/// Type of moving average.  The personalised variant carries the two
/// smoothing parameters as double bit patterns.
#[derive(Debug, Copy, Clone, PartialEq, Eq, Structural)]
pub enum MovingAverageType {
    Simple,
    Smoothed,
    Exponential,
    Personalised { alpha_num: u64, alpha_den: u64 },
}

/// Determines which constant model to use for a center point.
#[derive(Debug, Copy, Clone, PartialEq, Eq, Structural)]
pub enum ConstantModelType {
    SimpleMovingAverage,
    SmoothedMovingAverage,
    ExponentialMovingAverage,
    PersonalisedMovingAverage { alpha_num: u64, alpha_den: u64 },
    SimpleMovingMedian,
    SimpleMovingMode,
}

/// Trade position.
#[derive(Debug, Copy, Clone, PartialEq, Eq, Structural)]
pub enum Position {
    Short,
    Long,
}

} // verus!
