//! The codecs of blocks, which are those of transactions.
use vstd::prelude::*;

use crate::wire::{default_codec, genesis_codec, Manager};

verus! {

/// The codec of blocks.
#[allow(non_snake_case)]
pub fn Codec() -> (r: Manager)
    ensures
        r.max_size == 262_144,
{
    default_codec()
}

/// The codec of the genesis block, which may be large. New blocks are not read
/// with it.
#[allow(non_snake_case)]
pub fn GenesisCodec() -> (r: Manager)
    ensures
        r.max_size == 0x7fff_ffff,
{
    genesis_codec()
}

} // verus!
