//! Blocks: a body, and what is derived from it.
use vstd::prelude::*;

use crate::block::apricot::{ApricotAbortBlock, ApricotAbortBlockView, ApricotCommitBlock, ApricotCommitBlockView, CommonBlock, CommonBlockView};
use crate::block::banff::{BanffAbortBlock, BanffAbortBlockView, BanffCommitBlock, BanffCommitBlockView};
use crate::block::body::{BlockBody, BlockBodyView};
use crate::codec::CodecError;
use crate::crypto::{digest_id, sha256_digest};
use crate::ids::{empty_id, Id};
use crate::order::bytes_copy;
use crate::txs::tx::Tx;
use crate::wire::{unversioned, versioned, versioned_bytes_are_canonical, versioned_round_trip, Manager, Wire};

verus! {

/// A block: its body, and what was derived from it, which is its bytes and
/// their digest, the block's id.
#[derive(Debug, PartialEq, Eq)]
pub struct Block {
    /// What is written.
    pub body: BlockBody,
    /// The id, which is empty until it is derived.
    pub block_id: Id,
    /// The bytes, which are none until they are derived.
    pub raw: Vec<u8>,
}

impl View for Block {
    type V = BlockBodyView;

    open spec fn view(&self) -> BlockBodyView {
        self.body@
    }
}

/// What is derived from a block: its id and its bytes.
#[verifier::ext_equal]
pub struct BlockCache {
    /// The id.
    pub id: Seq<u8>,
    /// The bytes.
    pub bytes: Seq<u8>,
}

impl BlockCache {
    /// Nothing derived yet.
    pub open spec fn none() -> BlockCache {
        BlockCache { id: empty_id(), bytes: Seq::empty() }
    }

    /// What is derived from `bytes`.
    pub open spec fn of(bytes: Seq<u8>) -> BlockCache {
        BlockCache { id: sha256_digest(bytes), bytes }
    }
}

/// Whether a block with the body `v` can be written by a codec of `max_size`.
pub open spec fn writable(v: BlockBodyView, max_size: nat) -> bool {
    BlockBody::fits(v) && versioned::<BlockBody>(v).len() <= max_size
}

/// Why a block with the body `v` cannot be written.
pub open spec fn unwritable(v: BlockBodyView) -> CodecError {
    if BlockBody::fits(v) {
        CodecError::TooBig
    } else {
        CodecError::LengthOverflow
    }
}

/// `r` is a block with the body `v` and what is derived from it, where it can be
/// written.
pub open spec fn made(r: Result<Block, CodecError>, v: BlockBodyView, max_size: nat) -> bool {
    match r {
        Ok(b) => {
            &&& writable(v, max_size)
            &&& b@ == v
            &&& b.cache() == BlockCache::of(versioned::<BlockBody>(v))
        },
        Err(e) => !writable(v, max_size) && e == unwritable(v),
    }
}

impl Block {
    /// What was derived from the block.
    pub open spec fn cache(&self) -> BlockCache {
        BlockCache { id: self.block_id@, bytes: self.raw@ }
    }

    /// A block from which nothing is derived yet.
    pub fn new(body: BlockBody) -> (r: Block)
        ensures
            r.body == body,
            r.cache() == BlockCache::none(),
    {
        Block { body, block_id: Id::empty(), raw: Vec::new() }
    }

    /// Derives the bytes and the id. Where the block cannot be written, nothing
    /// changes.
    pub fn initialize(&mut self, c: &Manager) -> (r: Result<(), CodecError>)
        ensures
            final(self).body == old(self).body,
            r is Ok <==> writable(old(self)@, c.max_size as nat),
            r is Ok ==> final(self).cache() == BlockCache::of(
                versioned::<BlockBody>(old(self)@),
            ),
            r is Err ==> final(self).cache() == old(self).cache(),
            r matches Err(e) ==> e == unwritable(old(self)@),
    {
        match c.marshal(&self.body) {
            Ok(bytes) => {
                self.set_bytes(bytes);
                Ok(())
            },
            Err(e) => Err(e),
        }
    }

    fn set_bytes(&mut self, bytes: Vec<u8>)
        ensures
            final(self).body == old(self).body,
            final(self).cache() == BlockCache::of(bytes@),
    {
        self.block_id = digest_id(bytes.as_slice());
        self.raw = bytes;
    }

    /// The block that `bytes` hold, with its id.
    pub fn parse(c: &Manager, bytes: &[u8]) -> (r: Result<Block, CodecError>)
        ensures
            match unversioned::<BlockBody>(c.max_size as nat, bytes@) {
                Ok(v) => {
                    &&& r is Ok
                    &&& r->Ok_0@ == v
                    &&& r->Ok_0.cache() == BlockCache::of(bytes@)
                },
                Err(e) => r is Err && r->Err_0 == e,
            },
    {
        match c.unmarshal::<BlockBody>(bytes) {
            Ok(body) => {
                let mut b = Block::new(body);
                b.set_bytes(bytes_copy(bytes));
                Ok(b)
            },
            Err(e) => Err(e),
        }
    }

    /// The body.
    pub fn body(&self) -> (r: &BlockBody)
        ensures
            *r == self.body,
    {
        &self.body
    }

    /// The id, which is empty until it is derived.
    pub fn id(&self) -> (r: Id)
        ensures
            r@ == self.cache().id,
    {
        self.block_id
    }

    /// The bytes, which are none until they are derived.
    pub fn bytes(&self) -> (r: &[u8])
        ensures
            r@ == self.cache().bytes,
    {
        self.raw.as_slice()
    }

    /// The type id of the body.
    pub fn type_id(&self) -> (r: u32)
        ensures
            r == self@.type_id(),
    {
        self.body.codec_type_id()
    }

    /// The block that this one follows.
    pub fn parent_id(&self) -> (r: Id)
        ensures
            r@ == self@.common().parent_id,
    {
        self.body.common().parent_id
    }

    /// The height.
    pub fn height(&self) -> (r: u64)
        ensures
            r == self@.common().height,
    {
        self.body.common().height
    }

    /// The transactions: those that are decided at once, then the proposed one.
    pub fn txs(&self) -> (r: Vec<&Tx>)
        ensures
            r@.len() == self.body.tx_list().len(),
            forall|i: int| 0 <= i < r@.len() ==> *(#[trigger] r@[i]) == self.body.tx_list()[i],
    {
        self.body.txs()
    }

    /// The time, of a block that has one.
    pub fn banff_timestamp(&self) -> (r: Option<u64>)
        ensures
            r == self@.time(),
    {
        match &self.body {
            BlockBody::BanffProposal(b) => Some(b.time),
            BlockBody::BanffAbort(b) => Some(b.time),
            BlockBody::BanffCommit(b) => Some(b.time),
            BlockBody::BanffStandard(b) => Some(b.time),
            _ => None,
        }
    }

    /// Whether the block proposes a transaction.
    pub fn is_proposal(&self) -> (r: bool)
        ensures
            r == self@.proposal(),
    {
        match &self.body {
            BlockBody::ApricotProposal(_) => true,
            BlockBody::BanffProposal(_) => true,
            _ => false,
        }
    }

    /// The option that commits, behind `parent_id` at `height`.
    pub fn new_apricot_commit(c: &Manager, parent_id: Id, height: u64) -> (r: Result<
        Block,
        CodecError,
    >)
        ensures
            made(r, apricot_commit(parent_id@, height), c.max_size as nat),
    {
        Block::made_from(
            c,
            BlockBody::ApricotCommit(
                ApricotCommitBlock { common: CommonBlock { parent_id, height } },
            ),
        )
    }

    /// The option that aborts, behind `parent_id` at `height`.
    pub fn new_apricot_abort(c: &Manager, parent_id: Id, height: u64) -> (r: Result<
        Block,
        CodecError,
    >)
        ensures
            made(r, apricot_abort(parent_id@, height), c.max_size as nat),
    {
        Block::made_from(
            c,
            BlockBody::ApricotAbort(
                ApricotAbortBlock { common: CommonBlock { parent_id, height } },
            ),
        )
    }

    /// The timed option that commits, behind `parent_id` at `height`.
    pub fn new_banff_commit(c: &Manager, time: u64, parent_id: Id, height: u64) -> (r: Result<
        Block,
        CodecError,
    >)
        ensures
            made(r, banff_commit(time, parent_id@, height), c.max_size as nat),
    {
        Block::made_from(
            c,
            BlockBody::BanffCommit(
                BanffCommitBlock {
                    time,
                    apricot: ApricotCommitBlock { common: CommonBlock { parent_id, height } },
                },
            ),
        )
    }

    /// The timed option that aborts, behind `parent_id` at `height`.
    pub fn new_banff_abort(c: &Manager, time: u64, parent_id: Id, height: u64) -> (r: Result<
        Block,
        CodecError,
    >)
        ensures
            made(r, banff_abort(time, parent_id@, height), c.max_size as nat),
    {
        Block::made_from(
            c,
            BlockBody::BanffAbort(
                BanffAbortBlock {
                    time,
                    apricot: ApricotAbortBlock { common: CommonBlock { parent_id, height } },
                },
            ),
        )
    }

    fn made_from(c: &Manager, body: BlockBody) -> (r: Result<Block, CodecError>)
        ensures
            made(r, body@, c.max_size as nat),
    {
        let mut b = Block::new(body);
        match b.initialize(c) {
            Ok(()) => Ok(b),
            Err(e) => Err(e),
        }
    }
}

/// The body that commits.
pub open spec fn apricot_commit(parent_id: Seq<u8>, height: u64) -> BlockBodyView {
    BlockBodyView::ApricotCommit(
        ApricotCommitBlockView { common: CommonBlockView { parent_id, height } },
    )
}

/// The body that aborts.
pub open spec fn apricot_abort(parent_id: Seq<u8>, height: u64) -> BlockBodyView {
    BlockBodyView::ApricotAbort(
        ApricotAbortBlockView { common: CommonBlockView { parent_id, height } },
    )
}

/// The timed body that commits.
pub open spec fn banff_commit(time: u64, parent_id: Seq<u8>, height: u64) -> BlockBodyView {
    BlockBodyView::BanffCommit(
        BanffCommitBlockView {
            time,
            apricot: ApricotCommitBlockView { common: CommonBlockView { parent_id, height } },
        },
    )
}

/// The timed body that aborts.
pub open spec fn banff_abort(time: u64, parent_id: Seq<u8>, height: u64) -> BlockBodyView {
    BlockBodyView::BanffAbort(
        BanffAbortBlockView {
            time,
            apricot: ApricotAbortBlockView { common: CommonBlockView { parent_id, height } },
        },
    )
}

/// A block that was written is read back, with the same id.
pub proof fn block_round_trip(v: BlockBodyView, max_size: nat)
    requires
        writable(v, max_size),
    ensures
        unversioned::<BlockBody>(max_size, versioned::<BlockBody>(v)) == Ok::<
            BlockBodyView,
            CodecError,
        >(v),
{
    versioned_round_trip::<BlockBody>(max_size, v);
}

/// Bytes that are read as a block are the ones that the block is written as, so
/// that a block read and a block written alike have the same id.
pub proof fn block_bytes_are_canonical(bytes: Seq<u8>, max_size: nat)
    ensures
        unversioned::<BlockBody>(max_size, bytes) matches Ok(v) ==> writable(v, max_size)
            && versioned::<BlockBody>(v) == bytes,
{
    versioned_bytes_are_canonical::<BlockBody>(max_size, bytes);
}

} // verus!
