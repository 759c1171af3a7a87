//! The blocks that are being decided, over the stored state.
use std::sync::Arc;
use vstd::prelude::*;

use crate::block::block::Block;
use crate::block::executor::acceptor::{accepted_chain, accepted_ledger, store_txs};
use crate::collections::ordmap::{Key, OrdMap};
use crate::error::{not_found, DbError, Error, Result};
use crate::ids::Id;
use crate::state::chain::{Chain, Versions};
use crate::state::diff::{Diff, DiffView, Parent};
use crate::state::state::{State, StateView};
use crate::wire::Manager;

verus! {

/// What verifying a block left behind. A proposal has two layers of changes,
/// one for each of its options; every other block has one.
pub struct BlockState {
    /// The height of the block.
    pub height: u64,
    /// The changes that accepting the block makes.
    pub on_accept: Option<Arc<Diff>>,
    /// The changes that committing the proposal makes.
    pub on_commit: Option<Arc<Diff>>,
    /// The changes that aborting the proposal makes.
    pub on_abort: Option<Arc<Diff>>,
    /// The chain's time after the block.
    pub timestamp: u64,
    /// Whether the proposal is rather committed than aborted.
    pub prefers_commit: bool,
}

impl View for BlockState {
    type V = BlockState;

    open spec fn view(&self) -> BlockState {
        *self
    }
}

/// Whether the layer, where there is one, is consistent.
pub open spec fn layer_wf(d: Option<Arc<Diff>>) -> bool {
    d matches Some(l) ==> l.wf()
}

impl BlockState {
    /// Whether all the layers are consistent.
    pub open spec fn wf(self) -> bool {
        &&& layer_wf(self.on_accept)
        &&& layer_wf(self.on_commit)
        &&& layer_wf(self.on_abort)
    }
}

/// Hears of accepted blocks.
pub trait BlockAcceptanceNotifier {
    /// The block `block_id` was accepted.
    fn on_accepted_block_id(&self, block_id: Id);
}

/// Whether `notifier` was told that the block `id` was accepted.
pub open spec fn heard<N: BlockAcceptanceNotifier>(notifier: &N, id: Seq<u8>) -> bool {
    exists|b: Id|
        b@ == id && #[trigger] call_ensures(N::on_accepted_block_id, (notifier, b), ())
}

/// Hears of accepted blocks and does nothing.
#[derive(Clone, Copy, Debug, Default)]
pub struct NoopNotifier;

impl BlockAcceptanceNotifier for NoopNotifier {
    fn on_accepted_block_id(&self, block_id: Id) {
    }
}

/// The blocks that are being decided, over the stored state.
pub struct BlockManager<N: BlockAcceptanceNotifier> {
    state: State,
    base_view: Arc<State>,
    codec: Manager,
    blk_id_to_state: OrdMap<Id, BlockState>,
    last_accepted: Id,
    notifier: N,
}

/// What a [`BlockManager`] holds.
#[verifier::ext_equal]
pub struct ManagerView {
    /// The stored state.
    pub state: StateView,
    /// A frozen view of the stored state, which the changes of blocks lie on.
    pub base: Parent,
    /// The codec of blocks.
    pub codec: Manager,
    /// What verifying left behind of each block that is not decided yet.
    pub cache: Map<Seq<u8>, BlockState>,
    /// The block that was accepted last.
    pub last_accepted: Seq<u8>,
}

impl ManagerView {
    /// The state after the block `id`, where it is known: that of a verified
    /// block with a single layer of changes, or the stored state.
    pub open spec fn state_at(self, id: Seq<u8>) -> Option<Parent> {
        if self.cache.contains_key(id) {
            match self.cache[id].on_accept {
                Some(d) => Some(Parent::Layer(d)),
                None => None,
            }
        } else if id == self.last_accepted {
            Some(self.base)
        } else {
            None
        }
    }

    /// The state that a block behind `id` is verified against. Behind a
    /// proposal that is the state once it is committed.
    pub open spec fn state_for_verify(self, id: Seq<u8>) -> Option<Parent> {
        if self.cache.contains_key(id) {
            match self.cache[id].on_accept {
                Some(d) => Some(Parent::Layer(d)),
                None => match self.cache[id].on_commit {
                    Some(d) => Some(Parent::Layer(d)),
                    None => None,
                },
            }
        } else if id == self.last_accepted {
            Some(self.base)
        } else {
            None
        }
    }

    /// The height of the block `id`, where it is known.
    pub open spec fn height_of(self, id: Seq<u8>) -> Option<u64> {
        if self.cache.contains_key(id) {
            Some(self.cache[id].height)
        } else if id == self.last_accepted {
            Some(self.state.height)
        } else {
            None
        }
    }

    /// With what verifying left behind of the block `id`.
    pub open spec fn with(self, id: Seq<u8>, st: BlockState) -> ManagerView {
        ManagerView { cache: self.cache.insert(id, st), ..self }
    }

    /// Without the block `id`.
    pub open spec fn without(self, id: Seq<u8>) -> ManagerView {
        ManagerView { cache: self.cache.remove(id), ..self }
    }
}

impl<N: BlockAcceptanceNotifier> View for BlockManager<N> {
    type V = ManagerView;

    closed spec fn view(&self) -> ManagerView {
        ManagerView {
            state: self.state@,
            base: Parent::Base(self.base_view),
            codec: self.codec,
            cache: self.blk_id_to_state@,
            last_accepted: self.last_accepted@,
        }
    }
}

impl<N: BlockAcceptanceNotifier> Versions for BlockManager<N> {
    open spec fn versions_wf(&self) -> bool {
        self.wf()
    }

    open spec fn state_at(&self, block_id: Seq<u8>) -> Option<Parent> {
        self@.state_at(block_id)
    }

    fn get_state(&self, block_id: Id) -> (r: Option<Parent>) {
        match self.blk_id_to_state.get(&block_id) {
            Some(s) => match &s.on_accept {
                Some(d) => Some(Parent::Layer(Arc::clone(d))),
                None => None,
            },
            None => if block_id.same(&self.last_accepted) {
                Some(Parent::Base(Arc::clone(&self.base_view)))
            } else {
                None
            },
        }
    }
}

impl<N: BlockAcceptanceNotifier> BlockManager<N> {
    /// The stored state and every layer of changes are consistent, and the
    /// frozen view holds what the stored state holds.
    pub closed spec fn wf(&self) -> bool {
        &&& self.state.wf()
        &&& self.base_view.wf()
        &&& self.base_view@ == self.state@
        &&& forall|k: Seq<u8>| #[trigger]
            self.blk_id_to_state@.contains_key(k) ==> self.blk_id_to_state@[k].wf()
    }

    /// Who hears of accepted blocks.
    pub closed spec fn hearer(&self) -> N {
        self.notifier
    }

    /// What the frozen view reads is what is stored.
    pub proof fn base_reads_the_stored_state(&self)
        requires
            self.wf(),
        ensures
            self@.base.wf(),
            self@.base.model() == self@.state.chain,
    {
    }

    /// What is left behind of every block is consistent.
    pub proof fn cached_blocks_are_consistent(&self, id: Seq<u8>)
        requires
            self.wf(),
            self@.cache.contains_key(id),
        ensures
            self@.cache[id].wf(),
    {
    }

    /// Decides blocks over `state`.
    pub fn new(state: State, codec: Manager, notifier: N) -> (r: BlockManager<N>)
        requires
            state.wf(),
        ensures
            r.wf(),
            r@.state == state@,
            r@.codec == codec,
            r@.cache == Map::<Seq<u8>, BlockState>::empty(),
            r@.last_accepted == state@.last_accepted,
            r.hearer() == notifier,
    {
        let last_accepted = state.last_accepted();
        let base_view = Arc::new(state.snapshot());
        BlockManager {
            state,
            base_view,
            codec,
            blk_id_to_state: OrdMap::new(),
            last_accepted,
            notifier,
        }
    }

    /// The block that was accepted last.
    pub fn last_accepted(&self) -> (r: Id)
        ensures
            r@ == self@.last_accepted,
    {
        self.last_accepted
    }

    /// The stored state.
    pub fn state(&self) -> (r: &State)
        requires
            self.wf(),
        ensures
            r.wf(),
            r@ == self@.state,
    {
        &self.state
    }

    /// The codec of blocks.
    pub fn codec(&self) -> (r: &Manager)
        ensures
            *r == self@.codec,
    {
        &self.codec
    }

    /// The chain's time after the block `block_id`: that of the stored state
    /// where the block is not being decided.
    pub fn timestamp(&self, block_id: Id) -> (r: u64)
        requires
            self.wf(),
        ensures
            r == if self@.cache.contains_key(block_id@) {
                self@.cache[block_id@].timestamp
            } else {
                self@.state.chain.timestamp
            },
    {
        match self.blk_id_to_state.get(&block_id) {
            Some(s) => s.timestamp,
            None => self.base_view.timestamp(),
        }
    }

    /// The state that a block behind `parent_id` is verified against.
    pub fn get_state_for_verify(&self, parent_id: Id) -> (r: Option<Parent>)
        requires
            self.wf(),
        ensures
            r == self@.state_for_verify(parent_id@),
            r matches Some(p) ==> p.wf(),
    {
        match self.blk_id_to_state.get(&parent_id) {
            Some(s) => match &s.on_accept {
                Some(d) => Some(Parent::Layer(Arc::clone(d))),
                None => match &s.on_commit {
                    Some(d) => Some(Parent::Layer(Arc::clone(d))),
                    None => None,
                },
            },
            None => if parent_id.same(&self.last_accepted) {
                Some(Parent::Base(Arc::clone(&self.base_view)))
            } else {
                None
            },
        }
    }

    /// The height of the block `parent_id`.
    pub fn parent_height(&self, parent_id: Id) -> (r: Result<u64>)
        requires
            self.wf(),
        ensures
            r is Ok <==> self@.height_of(parent_id@) is Some,
            r matches Ok(h) ==> Some(h) == self@.height_of(parent_id@),
            r matches Err(e) ==> e == not_found(),
    {
        match self.blk_id_to_state.get(&parent_id) {
            Some(s) => Ok(s.height),
            None => if parent_id.same(&self.last_accepted) {
                Ok(self.state.height())
            } else {
                Err(Error::Database(DbError::NotFound))
            },
        }
    }

    /// What verifying left behind of the block `block_id`.
    pub fn cached(&self, block_id: Id) -> (r: Option<&BlockState>)
        requires
            self.wf(),
        ensures
            r is Some <==> self@.cache.contains_key(block_id@),
            r matches Some(s) ==> *s == self@.cache[block_id@] && s.wf(),
    {
        self.blk_id_to_state.get(&block_id)
    }

    /// Keeps what verifying left behind of the block `block_id`.
    pub(crate) fn cache(&mut self, block_id: Id, st: BlockState)
        requires
            old(self).wf(),
            st.wf(),
        ensures
            final(self).wf(),
            final(self).hearer() == old(self).hearer(),
            final(self)@ == old(self)@.with(block_id@, st),
    {
        let ghost m = self.blk_id_to_state@;
        self.blk_id_to_state.insert(block_id, st);
        assert(self@ =~= old(self)@.with(block_id@, st));
        assert forall|k: Seq<u8>| #[trigger]
            self.blk_id_to_state@.contains_key(k) implies self.blk_id_to_state@[k].wf() by {
            if k != block_id@ {
                assert(m.contains_key(k));
            }
        }
    }

    /// Forgets the block `block_id`.
    pub(crate) fn free(&mut self, block_id: Id)
        requires
            old(self).wf(),
        ensures
            final(self).wf(),
            final(self).hearer() == old(self).hearer(),
            final(self)@ == old(self)@.without(block_id@),
    {
        let ghost m = self.blk_id_to_state@;
        self.blk_id_to_state.remove(&block_id);
        assert(self@ =~= old(self)@.without(block_id@));
        assert forall|k: Seq<u8>| #[trigger]
            self.blk_id_to_state@.contains_key(k) implies self.blk_id_to_state@[k].wf() by {
            assert(m.contains_key(k));
        }
    }

    /// A layer without changes on the state after the block `parent_id`.
    pub fn new_diff(&self, parent_id: Id) -> (r: Result<Diff>)
        requires
            self.wf(),
        ensures
            r is Ok <==> self@.state_at(parent_id@) is Some,
            r matches Ok(d) ==> {
                &&& d.wf()
                &&& Some(d.below()) == self@.state_at(parent_id@)
                &&& d@ == DiffView::none()
                &&& d.model() == d.below().model()
            },
            r matches Err(e) ==> e == not_found(),
    {
        Diff::new(parent_id, self)
    }

    /// Forgets the block: what verifying left behind of it is gone.
    pub fn reject(&mut self, block: &Block)
        requires
            old(self).wf(),
        ensures
            final(self).wf(),
            final(self).hearer() == old(self).hearer(),
            final(self)@ == old(self)@.without(block.cache().id),
    {
        self.free(block.id());
    }

    /// Makes the proposal `block_id` the last accepted block. Nothing is stored.
    pub(crate) fn note_proposal_accept(&mut self, block_id: Id)
        requires
            old(self).wf(),
        ensures
            final(self).wf(),
            final(self).hearer() == old(self).hearer(),
            final(self)@ == (ManagerView { last_accepted: block_id@, ..old(self)@ }),
    {
        self.last_accepted = block_id;
    }

    /// Stores the changes `diff`, with the block.
    pub(crate) fn commit_accept(&mut self, block: &Block, diff: &Diff)
        requires
            old(self).wf(),
            diff.wf(),
        ensures
            final(self).wf(),
            final(self).hearer() == old(self).hearer(),
            final(self)@.state.chain == accepted_chain(
                old(self)@.state.chain,
                diff@,
                block.body.tx_list(),
            ),
            final(self)@.state.ledger() == accepted_ledger(
                old(self)@.state,
                diff@,
                block.cache().id,
                block.cache().bytes,
                block@.common().height,
            ),
            final(self)@.last_accepted == block.cache().id,
            final(self)@.codec == old(self)@.codec,
            final(self)@.cache == old(self)@.cache,
            heard(&final(self).hearer(), block.cache().id),
    {
        let height: u64 = block.height();
        let block_id = block.id();
        let ghost before = self.state@;
        let weights_before = self.state.current_validator_weights();
        let keys_before = self.state.current_validator_public_keys();
        let _ = diff.apply(&mut self.state);
        let ghost mid = self.state@;
        let weights_after = self.state.current_validator_weights();
        let keys_after = self.state.current_validator_public_keys();
        self.state.write_validator_diffs(
            height,
            &weights_before,
            &weights_after,
            &keys_before,
            &keys_after,
        );
        store_txs(&mut self.state, block);
        self.state.add_block(block_id, height, block.bytes());
        self.state.set_last_accepted(block_id);
        self.state.set_height(height);
        self.last_accepted = block_id;
        self.base_view = Arc::new(self.state.snapshot());
        assert(mid.ledger() == before.ledger());
        assert(self.state@.ledger() =~= accepted_ledger(
            before,
            diff@,
            block.cache().id,
            block.cache().bytes,
            height,
        ));
        self.notifier.on_accepted_block_id(block_id);
    }
}

} // verus!
