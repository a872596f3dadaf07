//! A baseline factor model strategy: features, an alpha model, a risk model,
//! a mean-variance optimizer, and simulated trading.

pub mod args;
pub mod plan;
