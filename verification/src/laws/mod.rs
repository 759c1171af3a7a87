//! What the operations promise, whatever their inputs: how a result relates to
//! what went in, and how one call relates to another.

pub mod blocks;
pub mod building;
pub mod chain;
pub mod derived;
pub mod failures;
pub mod filters;
pub mod genesis;
pub mod gossip;
pub mod layers;
pub mod layout;
pub mod messages;
pub mod outputs;
pub mod peers;
pub mod pool;
pub mod records;
pub mod rewards;
pub mod service;
pub mod shown;
pub mod stakers;
pub mod stored;
pub mod validators;
