//! The two options of a proposal.
use vstd::prelude::*;

use crate::block::block::{apricot_abort, apricot_commit, banff_abort, banff_commit, unwritable, writable, Block, BlockCache};
use crate::block::body::{BlockBody, BlockBodyView};
use crate::block::executor::manager::{BlockAcceptanceNotifier, BlockManager, ManagerView};
use crate::block::executor::verify::{kind_of, Kind};
use crate::error::{Error, Result};
use crate::wire::versioned;

verus! {

/// The body of the option that commits the proposal `v`, whose id is `id`.
pub open spec fn commit_of(v: BlockBodyView, id: Seq<u8>) -> BlockBodyView {
    let height = (v.common().height + 1) as u64;
    match v.time() {
        Some(t) => banff_commit(t, id, height),
        None => apricot_commit(id, height),
    }
}

/// The body of the option that aborts the proposal `v`, whose id is `id`.
pub open spec fn abort_of(v: BlockBodyView, id: Seq<u8>) -> BlockBodyView {
    let height = (v.common().height + 1) as u64;
    match v.time() {
        Some(t) => banff_abort(t, id, height),
        None => apricot_abort(id, height),
    }
}

/// Why a block has no options, if it has none: it is no verified proposal, it is
/// the last block there can be, or its options are too large.
pub open spec fn no_options(m: ManagerView, v: BlockBodyView, id: Seq<u8>) -> Option<Error> {
    let max = m.codec.max_size as nat;
    if !v.proposal() || !m.cache.contains_key(id) {
        Some(Error::WrongTxType)
    } else if v.common().height == u64::MAX {
        Some(Error::Overflow)
    } else if !writable(commit_of(v, id), max) {
        Some(Error::Codec(unwritable(commit_of(v, id))))
    } else if !writable(abort_of(v, id), max) {
        Some(Error::Codec(unwritable(abort_of(v, id))))
    } else {
        None
    }
}

/// Whether `b` is a block with the body `v` and what is derived from it.
pub open spec fn is_block(b: Block, v: BlockBodyView) -> bool {
    b@ == v && b.cache() == BlockCache::of(versioned::<BlockBody>(v))
}

impl<N: BlockAcceptanceNotifier> BlockManager<N> {
    /// The options of a verified proposal: to commit it and to abort it, the
    /// preferred one first.
    pub fn options(&self, block: &Block) -> (r: Result<(Block, Block)>)
        requires
            self.wf(),
        ensures
            r is Ok <==> no_options(self@, block@, block.cache().id) is None,
            r matches Err(e) ==> Some(e) == no_options(self@, block@, block.cache().id),
            r matches Ok((first, second)) ==> {
                let id = block.cache().id;
                if self@.cache[id].prefers_commit {
                    is_block(first, commit_of(block@, id)) && is_block(
                        second,
                        abort_of(block@, id),
                    )
                } else {
                    is_block(first, abort_of(block@, id)) && is_block(
                        second,
                        commit_of(block@, id),
                    )
                }
            },
    {
        if !block.is_proposal() {
            return Err(Error::WrongTxType);
        }
        let blk_id = block.id();
        let prefers_commit: bool = match self.cached(blk_id) {
            Some(s) => s.prefers_commit,
            None => {
                return Err(Error::WrongTxType);
            },
        };
        let next: u64 = match block.height().checked_add(1) {
            Some(h) => h,
            None => {
                return Err(Error::Overflow);
            },
        };
        let c = self.codec();
        let commit = match block.banff_timestamp() {
            Some(t) => Block::new_banff_commit(c, t, blk_id, next),
            None => Block::new_apricot_commit(c, blk_id, next),
        };
        let commit = match commit {
            Ok(b) => b,
            Err(e) => {
                return Err(Error::Codec(e));
            },
        };
        let abort = match block.banff_timestamp() {
            Some(t) => Block::new_banff_abort(c, t, blk_id, next),
            None => Block::new_apricot_abort(c, blk_id, next),
        };
        let abort = match abort {
            Ok(b) => b,
            Err(e) => {
                return Err(Error::Codec(e));
            },
        };
        if prefers_commit {
            Ok((commit, abort))
        } else {
            Ok((abort, commit))
        }
    }
}

/// Both options follow the proposal: they name it as their parent, stand one
/// above it and have its time. One commits and the other aborts.
pub proof fn options_follow_the_proposal(v: BlockBodyView, id: Seq<u8>)
    requires
        v.proposal(),
        v.common().height < u64::MAX,
    ensures
        commit_of(v, id).common().parent_id == id,
        abort_of(v, id).common().parent_id == id,
        commit_of(v, id).common().height == v.common().height + 1,
        abort_of(v, id).common().height == v.common().height + 1,
        commit_of(v, id).time() == v.time(),
        abort_of(v, id).time() == v.time(),
        kind_of(commit_of(v, id)) == Kind::Choice(true),
        kind_of(abort_of(v, id)) == Kind::Choice(false),
        commit_of(v, id) != abort_of(v, id),
{
}

} // verus!
