//! A progressive tax and superannuation calculator.
//!
//! Money is represented in integer cents and rates in thousandths, so every
//! computation is exact integer arithmetic; results are truncated toward zero
//! to whole currency units, discarding fractional cents.

pub mod config;
pub mod tax;
