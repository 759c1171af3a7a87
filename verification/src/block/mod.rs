//! Blocks.

pub mod apricot;
pub mod banff;
pub mod block;
pub mod body;
pub mod builder;
pub mod codec;
pub mod executor;
pub mod parse;

pub use apricot::CommonBlock;
pub use block::Block;
pub use body::BlockBody;
pub use parse::parse;
