//! Ordered collections.

pub mod ordmap;
