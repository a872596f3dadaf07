//! The scorer: what holding a submitted book would have returned, net of
//! costs.

pub mod args;
pub mod data;
pub mod plan;
pub mod report;
