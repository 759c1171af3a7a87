//! What can be gossiped, and what is asked of those who keep it.
use vstd::prelude::*;

use crate::ids::Id;
use crate::p2p::error::Result;

verus! {

/// An item that can be gossiped.
pub trait Gossipable {
    /// The id that the item is known by.
    fn gossip_id(&self) -> Id;
}

/// Writes and reads items.
pub trait Marshaller<T> {
    /// The bytes of an item.
    fn marshal(&self, t: &T) -> Result<Vec<u8>>;

    /// The item that the bytes hold.
    fn unmarshal(&self, bytes: &[u8]) -> Result<T>;
}

/// Looks at items one by one.
pub trait Visitor<T> {
    /// Looks at an item, and says whether to go on.
    fn visit(&mut self, t: &T) -> bool;
}

/// The items that are known.
pub trait GossipSet<T: Gossipable> {
    /// Adds an item.
    fn add(&self, t: T) -> Result<()>;

    /// Whether the item `id` is known.
    fn has(&self, id: &Id) -> bool;

    /// Shows the items one by one, as long as the visitor goes on.
    fn iterate(&self, v: &mut dyn Visitor<T>);

    /// The bytes of a filter of the items, and what it is salted with.
    fn get_filter(&self) -> (Vec<u8>, Vec<u8>);
}

/// Whom a message is sent to.
#[derive(Clone, Copy, Debug, Default, PartialEq, Eq, Structural)]
pub struct SendConfig {
    /// How many validators.
    pub validators: usize,
}

/// How gossip runs. Times are in milliseconds.
#[derive(Clone, Copy, Debug, PartialEq, Eq, Structural)]
pub struct GossipParams {
    /// The bytes that a message stops at.
    pub target_message_size: usize,
    /// How often new items are pushed.
    pub push_period: u64,
    /// How often peers are asked for items.
    pub pull_period: u64,
    /// How often items are pushed again.
    pub regossip_period: u64,
    /// Whom new items are pushed to.
    pub push_cfg: SendConfig,
    /// Whom items are pushed to again.
    pub regossip_cfg: SendConfig,
    /// How many of the items are remembered that were given up.
    pub discarded_cache_size: usize,
}

impl Default for GossipParams {
    fn default() -> (r: GossipParams)
        ensures
            r == (GossipParams {
                target_message_size: 20_480,
                push_period: 100,
                pull_period: 1_000,
                regossip_period: 30_000,
                push_cfg: SendConfig { validators: 100 },
                regossip_cfg: SendConfig { validators: 10 },
                discarded_cache_size: 16_384,
            }),
    {
        GossipParams {
            target_message_size: 20_480,
            push_period: 100,
            pull_period: 1_000,
            regossip_period: 30_000,
            push_cfg: SendConfig { validators: 100 },
            regossip_cfg: SendConfig { validators: 10 },
            discarded_cache_size: 16_384,
        }
    }
}

} // verus!
