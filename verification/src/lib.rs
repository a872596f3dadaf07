//! Backtests of factor strategies: the plans that wire market data into
//! features, models and trades, and the rules by which books are scored.

pub mod data;
pub mod double;
pub mod expr;
pub mod features;
pub mod graph;
pub mod ops;
pub mod meaning;
pub mod paths;
pub mod plans;
pub mod python;
pub mod quotes;
pub mod report;
pub mod risk_model_compare;
pub mod score;
pub mod screens;
pub mod sort;
pub mod strategy_base;
pub mod strategy_markowitz;
pub mod text;
pub mod time;
pub mod trade;
pub mod universe;
