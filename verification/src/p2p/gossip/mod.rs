//! Gossip: which items peers hear of.

pub mod bloom;
pub mod handler;
pub mod pull;
pub mod push;
pub mod traits;
