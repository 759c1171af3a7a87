//! Accepting blocks.
use std::sync::Arc;
use vstd::prelude::*;

use crate::block::block::Block;
use crate::block::body::BlockBody;
use crate::block::executor::manager::{heard, BlockAcceptanceNotifier, BlockManager, ManagerView};
use crate::block::executor::verify::{chosen, kept, kept_choice, kind_of, refusal, Kind, Outcome};
use crate::codec::be;
use crate::error::{not_found, DbError, Error, Result};
use crate::ids::Id;
use crate::order::bytes_copy;
use crate::state::chain::{Chain, ChainView};
use crate::state::diff::{Diff, DiffView};
use crate::state::diff_iterators::{entry_of, key_of, lists, records_keys, records_weights, undo_weights, undoing_restores_weights, weight_of, with_weights, SetView};
use crate::state::staker::member_key;
use crate::state::state::{Ledger, State, StateView};
use crate::state::validator_sets::{change_at, current_keys, current_weights, keys_in, stored_key_changes_lead_back, stored_weight_changes_lead_back, weights_in, with_key_changes, with_weight_changes};
use crate::txs::tx::Tx;

verus! {

/// The stored transactions, with `txs`.
pub open spec fn with_txs(stored: Map<Seq<u8>, Seq<u8>>, txs: Seq<Tx>) -> Map<Seq<u8>, Seq<u8>>
    decreases txs.len(),
{
    if txs.len() == 0 {
        stored
    } else {
        with_txs(stored, txs.drop_last()).insert(txs.last().cache().id, txs.last().cache().bytes)
    }
}

/// The state after a block that makes the changes `d` and holds `txs` was
/// accepted.
pub open spec fn accepted_chain(before: ChainView, d: DiffView, txs: Seq<Tx>) -> ChainView {
    let after = d.over(before);
    ChainView { txs: with_txs(after.txs, txs), ..after }
}

/// What is stored besides after the block `id` was accepted: the block itself,
/// and how weights and keys changed at its height.
pub open spec fn accepted_ledger(
    before: StateView,
    d: DiffView,
    id: Seq<u8>,
    bytes: Seq<u8>,
    height: u64,
) -> Ledger {
    let after = d.over(before.chain);
    Ledger {
        blocks: before.blocks.insert(id, bytes),
        block_rows: before.block_rows.insert(be(height as nat, 8), id),
        block_index: before.block_index.insert(be(height as nat, 8), id),
        last_accepted: id,
        height,
        weight_diffs: with_weight_changes(
            before.weight_diffs,
            height,
            current_weights(before.chain.current.set),
            current_weights(after.current.set),
        ),
        key_diffs: with_key_changes(
            before.key_diffs,
            height,
            current_keys(before.chain.current.set),
            current_keys(after.current.set),
        ),
    }
}

/// The changes that accepting the block makes, where it was verified.
pub open spec fn accept_changes(m: ManagerView, block: &Block) -> Option<DiffView> {
    if m.cache.contains_key(block.cache().id) {
        match m.cache[block.cache().id].on_accept {
            Some(d) => Some(d@),
            None => None,
        }
    } else {
        None
    }
}

/// Whether the block can be accepted: it was verified.
pub open spec fn acceptable(m: ManagerView, block: &Block) -> bool {
    if block@.proposal() {
        m.cache.contains_key(block.cache().id)
    } else {
        accept_changes(m, block) is Some
    }
}

/// The blocks that are still being decided once the block was accepted. A block
/// that chooses decides its parent too.
pub open spec fn still_undecided(m: ManagerView, block: &Block) -> ManagerView {
    match kind_of(block@) {
        Kind::Choice(_) => m.without(block@.common().parent_id).without(block.cache().id),
        _ => m.without(block.cache().id),
    }
}

/// Whether accepting the block leads from `m` to `f`. A proposal only becomes
/// the last accepted block: what it changes is stored with the option that is
/// accepted behind it.
pub open spec fn accepted(m: ManagerView, block: &Block, f: ManagerView) -> bool {
    if block@.proposal() {
        f == (ManagerView { last_accepted: block.cache().id, ..m })
    } else {
        let d = accept_changes(m, block)->0;
        &&& f.state.chain == accepted_chain(m.state.chain, d, block.body.tx_list())
        &&& f.state.ledger() == accepted_ledger(
            m.state,
            d,
            block.cache().id,
            block.cache().bytes,
            block@.common().height,
        )
        &&& f.last_accepted == block.cache().id
        &&& f.codec == m.codec
        &&& f.cache == still_undecided(m, block).cache
    }
}

/// What verifying the block leaves behind, with the work that was done for it.
pub open spec fn verified(m: ManagerView, block: &Block, outcome: Outcome) -> ManagerView {
    match kind_of(block@) {
        Kind::Choice(commit) => kept_choice(m, block, commit),
        _ => kept(m, block, outcome),
    }
}

impl<N: BlockAcceptanceNotifier> BlockManager<N> {
    /// Accepts a verified block: its changes are stored, with the block and its
    /// transactions, and with how weights and keys changed at its height. Of a
    /// proposal nothing is stored yet.
    pub fn accept(&mut self, block: &Block) -> (r: Result<()>)
        requires
            old(self).wf(),
        ensures
            final(self).wf(),
            final(self).hearer() == old(self).hearer(),
            r is Ok && !block@.proposal() ==> heard(&final(self).hearer(), block.cache().id),
            r is Ok <==> acceptable(old(self)@, block),
            r is Ok ==> accepted(old(self)@, block, final(self)@),
            r matches Err(e) ==> e == not_found() && final(self)@ == old(self)@,
    {
        let block_id = block.id();
        match block.body() {
            BlockBody::ApricotProposal(_) => self.accept_proposal(block_id),
            BlockBody::BanffProposal(_) => self.accept_proposal(block_id),
            BlockBody::ApricotCommit(_) => self.accept_option(block),
            BlockBody::BanffCommit(_) => self.accept_option(block),
            BlockBody::ApricotAbort(_) => self.accept_option(block),
            BlockBody::BanffAbort(_) => self.accept_option(block),
            BlockBody::ApricotStandard(_) => self.accept_decision(block),
            BlockBody::BanffStandard(_) => self.accept_decision(block),
            BlockBody::ApricotAtomic(_) => self.accept_decision(block),
        }
    }

    /// Takes a block that others have decided: it is verified, the work that was
    /// done for it is kept, and the block is accepted. A block that is refused
    /// changes nothing.
    pub fn accept_non_verifying(&mut self, block: &Block, outcome: Outcome) -> (r: Result<()>)
        requires
            old(self).wf(),
            refusal(old(self)@, block@) is None ==> outcome.completes(
                block,
                old(self)@.state_at(block@.common().parent_id),
            ),
        ensures
            final(self).wf(),
            final(self).hearer() == old(self).hearer(),
            r is Ok && !block@.proposal() ==> heard(&final(self).hearer(), block.cache().id),
            r is Ok <==> refusal(old(self)@, block@) is None,
            r is Ok ==> accepted(verified(old(self)@, block, outcome), block, final(self)@),
            r matches Err(e) ==> Some(e) == refusal(old(self)@, block@) && final(self)@
                == old(self)@,
    {
        match self.verify(block) {
            Ok(_) => {},
            Err(e) => {
                return Err(e);
            },
        }
        self.finish(block, outcome);
        self.accept(block)
    }

    fn accept_proposal(&mut self, block_id: Id) -> (r: Result<()>)
        requires
            old(self).wf(),
        ensures
            final(self).wf(),
            final(self).hearer() == old(self).hearer(),
            r is Ok <==> old(self)@.cache.contains_key(block_id@),
            r is Ok ==> final(self)@ == (ManagerView {
                last_accepted: block_id@,
                ..old(self)@
            }),
            r matches Err(e) ==> e == not_found() && final(self)@ == old(self)@,
    {
        if self.cached(block_id).is_none() {
            return Err(Error::Database(DbError::NotFound));
        }
        self.note_proposal_accept(block_id);
        Ok(())
    }

    fn accept_decision(&mut self, block: &Block) -> (r: Result<()>)
        requires
            old(self).wf(),
            !block@.proposal(),
            !(kind_of(block@) is Choice),
        ensures
            final(self).wf(),
            final(self).hearer() == old(self).hearer(),
            r is Ok ==> heard(&final(self).hearer(), block.cache().id),
            r is Ok <==> acceptable(old(self)@, block),
            r is Ok ==> accepted(old(self)@, block, final(self)@),
            r matches Err(e) ==> e == not_found() && final(self)@ == old(self)@,
    {
        let diff = match self.cached_accept_diff(block.id()) {
            Some(d) => d,
            None => {
                return Err(Error::Database(DbError::NotFound));
            },
        };
        self.commit_accept(block, &diff);
        self.free(block.id());
        Ok(())
    }

    fn accept_option(&mut self, block: &Block) -> (r: Result<()>)
        requires
            old(self).wf(),
            kind_of(block@) is Choice,
        ensures
            final(self).wf(),
            final(self).hearer() == old(self).hearer(),
            r is Ok ==> heard(&final(self).hearer(), block.cache().id),
            r is Ok <==> acceptable(old(self)@, block),
            r is Ok ==> accepted(old(self)@, block, final(self)@),
            r matches Err(e) ==> e == not_found() && final(self)@ == old(self)@,
    {
        let diff = match self.cached_accept_diff(block.id()) {
            Some(d) => d,
            None => {
                return Err(Error::Database(DbError::NotFound));
            },
        };
        self.commit_accept(block, &diff);
        self.free(block.parent_id());
        self.free(block.id());
        Ok(())
    }

    fn cached_accept_diff(&self, block_id: Id) -> (r: Option<Arc<Diff>>)
        requires
            self.wf(),
        ensures
            r == if self@.cache.contains_key(block_id@) {
                self@.cache[block_id@].on_accept
            } else {
                None
            },
            r matches Some(d) ==> d.wf(),
    {
        match self.cached(block_id) {
            Some(s) => match &s.on_accept {
                Some(d) => Some(Arc::clone(d)),
                None => None,
            },
            None => None,
        }
    }
}

/// Stores the transactions of the block.
pub(crate) fn store_txs(state: &mut State, block: &Block)
    requires
        old(state).wf(),
    ensures
        final(state).wf(),
        final(state)@ == (StateView {
            chain: ChainView {
                txs: with_txs(old(state)@.chain.txs, block.body.tx_list()),
                ..old(state)@.chain
            },
            ..old(state)@
        }),
{
    let txs = block.txs();
    let n: usize = txs.len();
    let ghost list = block.body.tx_list();
    let ghost start = state@;
    let mut i: usize = 0;
    assert(list.take(0).len() == 0);
    assert(state@ =~= (StateView {
        chain: ChainView { txs: start.chain.txs, ..start.chain },
        ..start
    }));
    while i < n
        invariant
            i <= n,
            n == list.len(),
            n == txs@.len(),
            list == block.body.tx_list(),
            forall|j: int| 0 <= j < n ==> *(#[trigger] txs@[j]) == list[j],
            state.wf(),
            state@ == (StateView {
                chain: ChainView {
                    txs: with_txs(start.chain.txs, list.take(i as int)),
                    ..start.chain
                },
                ..start
            }),
        decreases n - i,
    {
        let tx: &Tx = txs[i];
        state.add_tx(tx.id(), bytes_copy(tx.bytes()));
        assert(list.take(i + 1).drop_last() =~= list.take(i as int));
        assert(list.take(i + 1).last() == list[i as int]);
        i += 1;
    }
    assert(list.take(n as int) =~= list);
}

/// A block that commits a proposal makes the changes that the proposal has for
/// that, and one that aborts it the others: what a verified proposal left
/// behind is what accepting the option stores.
pub proof fn options_make_the_chosen_changes(m: ManagerView, block: &Block, commit: bool)
    requires
        kind_of(block@) == Kind::Choice(commit),
        refusal(m, block@) is None,
    ensures
        acceptable(kept_choice(m, block, commit), block),
        accept_changes(kept_choice(m, block, commit), block) == Some(
            (chosen(m.cache[block@.common().parent_id], commit)->0)@,
        ),
{
}

/// A block that was accepted is found by its id and by its height.
pub proof fn accepted_blocks_are_found(
    before: StateView,
    d: DiffView,
    id: Seq<u8>,
    bytes: Seq<u8>,
    height: u64,
)
    ensures
        accepted_ledger(before, d, id, bytes, height).blocks[id] == bytes,
        accepted_ledger(before, d, id, bytes, height).block_index[be(height as nat, 8)] == id,
        accepted_ledger(before, d, id, bytes, height).last_accepted == id,
        accepted_ledger(before, d, id, bytes, height).height == height,
        forall|other: Seq<u8>|
            other != id && #[trigger] before.blocks.contains_key(other)
                ==> accepted_ledger(before, d, id, bytes, height).blocks.contains_key(other)
                && accepted_ledger(before, d, id, bytes, height).blocks[other]
                == before.blocks[other],
{
}

/// What is stored with an accepted block leads back: undoing the changes at its
/// height turns the validators after it into those from before it.
pub proof fn accepting_can_be_undone(
    before: StateView,
    d: DiffView,
    id: Seq<u8>,
    bytes: Seq<u8>,
    height: u64,
    subnet: Seq<u8>,
    set: SetView,
)
    requires
        subnet.len() == 32,
        forall|k: Seq<u8>| #[trigger]
            before.weight_diffs.contains_key(k) ==> !change_at(k, height),
        forall|k: Seq<u8>| #[trigger] before.key_diffs.contains_key(k) ==> !change_at(k, height),
        forall|n: Seq<u8>|
            n.len() == 20 ==> #[trigger] entry_of(set, n).weight == weight_of(
                current_weights(d.over(before.chain).current.set),
                member_key(subnet, n),
            ),
        forall|n: Seq<u8>| #[trigger]
            set.contains_key(n) ==> n.len() == 20 && set[n].public_key == key_of(
                current_keys(d.over(before.chain).current.set),
                member_key(subnet, n),
            ),
    ensures
        records_weights(
            accepted_ledger(before, d, id, bytes, height).weight_diffs,
            subnet,
            height,
            weights_in(current_weights(before.chain.current.set), subnet),
            set,
        ),
        records_keys(
            accepted_ledger(before, d, id, bytes, height).key_diffs,
            subnet,
            height,
            keys_in(current_keys(before.chain.current.set), subnet),
            set,
        ),
{
    let after = d.over(before.chain);
    stored_weight_changes_lead_back(
        before.weight_diffs,
        height,
        current_weights(before.chain.current.set),
        current_weights(after.current.set),
        subnet,
        set,
    );
    stored_key_changes_lead_back(
        before.key_diffs,
        height,
        current_keys(before.chain.current.set),
        current_keys(after.current.set),
        subnet,
        set,
    );
}

/// Reading the stored changes back: undoing, on the validators after an accepted
/// block, what is stored at its height gives the weights from before it, where no
/// validator is without weight. `ks` and `vs` are the stored changes of weights in
/// order.
pub proof fn undoing_an_accepted_block(
    before: StateView,
    d: DiffView,
    id: Seq<u8>,
    bytes: Seq<u8>,
    height: u64,
    subnet: Seq<u8>,
    set: SetView,
    ks: Seq<Seq<u8>>,
    vs: Seq<Seq<u8>>,
)
    requires
        subnet.len() == 32,
        forall|k: Seq<u8>| #[trigger]
            before.weight_diffs.contains_key(k) ==> !change_at(k, height),
        forall|k: Seq<u8>| #[trigger] before.key_diffs.contains_key(k) ==> !change_at(k, height),
        forall|n: Seq<u8>|
            n.len() == 20 ==> #[trigger] entry_of(set, n).weight == weight_of(
                current_weights(d.over(before.chain).current.set),
                member_key(subnet, n),
            ),
        forall|n: Seq<u8>| #[trigger]
            set.contains_key(n) ==> n.len() == 20 && set[n].weight > 0 && set[n].public_key
                == key_of(
                current_keys(d.over(before.chain).current.set),
                member_key(subnet, n),
            ),
        forall|n: Seq<u8>| #[trigger]
            weights_in(current_weights(before.chain.current.set), subnet).contains_key(n)
                ==> weights_in(current_weights(before.chain.current.set), subnet)[n] > 0,
        lists(ks, vs, accepted_ledger(before, d, id, bytes, height).weight_diffs),
    ensures
        undo_weights(ks, vs, ks.len(), set, subnet, height, height) == (
            with_weights(weights_in(current_weights(before.chain.current.set), subnet), set),
            true,
        ),
{
    accepting_can_be_undone(before, d, id, bytes, height, subnet, set);
    undoing_restores_weights(
        ks,
        vs,
        subnet,
        height,
        weights_in(current_weights(before.chain.current.set), subnet),
        set,
    );
}

} // verus!
