//! Trend indicators: the Parabolic Time Price System and the
//! Directional Movement System.

pub mod bulk;
pub mod single;
