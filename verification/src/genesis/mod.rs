//! The genesis state, its block, and the state that starts from it.

pub mod codec;
pub mod seed;
pub mod types;

pub use codec::{genesis_block, genesis_id, marshal, parse};
pub use seed::seed_state;
pub use types::{Genesis, GenesisUtxo};
