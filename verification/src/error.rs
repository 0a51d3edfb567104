//! The error taxonomy shared by every fallible function of the crate.

use vstd::prelude::*;

verus! {

/// Why a computation could not be carried out.
///
/// Numeric values carried inside an error (`InvalidValue::value`) are the
/// bit patterns of the offending IEEE-754 doubles, like every other number
/// in this crate.
#[derive(Debug, Clone, PartialEq)]
pub enum TechnicalIndicatorError {
    /// Input data is empty when it must not be.
    EmptyData { name: String },
    /// Several input series that must share a length do not.
    MismatchedLength { names: Vec<(String, usize)> },
    /// A period parameter is zero, too small, or longer than the data.
    InvalidPeriod { period: usize, data_len: usize, reason: String },
    /// A numeric value is out of its acceptable range.
    InvalidValue { name: String, value: u64, reason: String },
    /// An enum variant is not supported in this context.
    UnsupportedType { name: String },
    /// Anything that does not fit the categories above.
    Custom { message: String },
}

} // verus!
