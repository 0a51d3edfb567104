//! Moving averages: the smoothing collaborators of the trend engines.

pub mod bulk;
pub mod single;
