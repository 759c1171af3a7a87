//! The rewards of stakers.

pub mod big;
pub mod calculator;
pub mod config;

pub use calculator::{split, Calculator};
pub use config::{Config, PERCENT_DENOMINATOR};
