//! How well risk models forecast covariances, scored day by day.

pub mod args;
pub mod labels;
pub mod lags;
pub mod plan;
