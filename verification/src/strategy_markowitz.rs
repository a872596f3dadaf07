//! The Markowitz mean-variance strategy over the whole market.

pub mod args;
pub mod data;
pub mod features;
pub mod panels;
pub mod plan;
pub mod quotes;
