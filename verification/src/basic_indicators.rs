//! Basic descriptive statistics that the trend engines consume:
//! windowed extrema, mean, median and mode.

pub mod bulk;
pub mod single;
