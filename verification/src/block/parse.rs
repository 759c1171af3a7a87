//! Reading blocks.
use vstd::prelude::*;

use crate::block::block::{Block, BlockCache};
use crate::block::body::BlockBody;
use crate::codec::CodecError;
use crate::wire::{unversioned, Manager};

verus! {

/// The block that `bytes` hold, with its id. The codec is the caller's choice,
/// since the genesis block may be larger than other blocks.
pub fn parse(c: &Manager, bytes: &[u8]) -> (r: Result<Block, CodecError>)
    ensures
        match unversioned::<BlockBody>(c.max_size as nat, bytes@) {
            Ok(v) => {
                &&& r is Ok
                &&& r->Ok_0@ == v
                &&& r->Ok_0.cache() == BlockCache::of(bytes@)
            },
            Err(e) => r is Err && r->Err_0 == e,
        },
{
    Block::parse(c, bytes)
}

} // verus!
