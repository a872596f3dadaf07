//! The feature catalogs.

pub mod alpha158;
pub mod alpha360;
pub mod barra;
pub mod basic;
pub mod chip;
pub mod cicc_fund;
pub mod cicc_pv;
pub mod common;
pub mod context;
pub mod formula;
pub mod industry;
pub mod keys;
pub mod lanes;
pub mod needs;
pub mod panels;
pub mod scan;
pub mod sets;
