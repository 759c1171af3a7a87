//! Building blocks.

pub mod assemble;
pub mod pack;
pub mod time;

pub use assemble::build_block;
pub use time::next_block_time;
