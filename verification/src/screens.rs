//! How well features predict: the daily correlation of each feature with the
//! return that follows.

pub mod features_base;
pub mod features_neutral;
pub mod ic;
