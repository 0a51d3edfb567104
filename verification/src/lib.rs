//! Quantitative finance primitives over IEEE-754 double-precision prices.
//!
//! Every price, factor and statistic is carried as the bit pattern of a
//! 64-bit IEEE-754 float (a `u64`).  Comparisons, the square root and
//! the round-to-integer cast are implemented and verified on the bits
//! inside this crate; the four rounded arithmetic operations and the
//! integer-to-double conversions are performed by a software
//! implementation of IEEE-754 arithmetic behind trusted wrappers.

pub mod basic_indicators;
pub mod chart_trends;
pub mod error;
pub mod fp;
pub mod moving_average;
pub mod trend_indicators;
pub mod types;
pub mod validation;

pub use error::TechnicalIndicatorError;
pub use types::{AbsDevConfig, CentralPoint, ConstantModelType, DeviationAggregate, MovingAverageType, Position};
