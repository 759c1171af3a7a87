//! Blocks: what they tell of themselves, which are refused, and what verifying,
//! accepting and rejecting them does.
use std::sync::Arc;
use vstd::prelude::*;

use crate::block::block::Block;
use crate::block::body::{BlockBody, BlockBodyView};
use crate::block::executor::acceptor::with_txs;
use crate::block::executor::manager::{BlockAcceptanceNotifier, BlockManager, BlockState};
use crate::block::executor::verify::{proposal_tx, refusal, resolve_staker_tx, rewarded_staker_tx, Outcome, RewardedStakerTx, StandardRun, Verification, Work};
use crate::codec::be;
use crate::error::{DbError, Error, Result};
use crate::ids::Id;
use crate::state::chain::{Chain, ChainView, Versions};
use crate::state::diff::{Diff, DiffView, Parent};
use crate::state::state::State;
use crate::txs::tx::Tx;
use crate::txs::unsigned::{UnsignedTx, UnsignedTxView};
use crate::wire::{unversioned, versioned, Manager};

verus! {

/// What a block tells of itself stands in its body: the parent and the height,
/// the time where it has one, whether it proposes, and its transactions.
pub proof fn a_block_tells_what_it_holds(
    b: &Block,
    parent: Id,
    height: u64,
    time: Option<u64>,
    proposes: bool,
    txs: Vec<&Tx>,
    proposed: Option<&Tx>,
)
    requires
        call_ensures(Block::parent_id, (b,), parent),
        call_ensures(Block::height, (b,), height),
        call_ensures(Block::banff_timestamp, (b,), time),
        call_ensures(Block::is_proposal, (b,), proposes),
        call_ensures(Block::txs, (b,), txs),
        call_ensures(proposal_tx, (b,), proposed),
    ensures
        b.body matches BlockBody::ApricotProposal(x) ==> parent@ == x.common.parent_id@ && height
            == x.common.height && time is None && proposes && txs@.len() == 1 && *txs@[0] == x.tx
            && proposed is Some && *proposed->0 == x.tx,
        b.body matches BlockBody::ApricotAbort(x) ==> parent@ == x.common.parent_id@ && height
            == x.common.height && time is None && !proposes && txs@.len() == 0 && proposed is None,
        b.body matches BlockBody::ApricotCommit(x) ==> parent@ == x.common.parent_id@ && height
            == x.common.height && time is None && !proposes && txs@.len() == 0 && proposed is None,
        b.body matches BlockBody::ApricotStandard(x) ==> parent@ == x.common.parent_id@ && height
            == x.common.height && time is None && !proposes && txs@.len()
            == x.transactions.items@.len() && proposed is None,
        b.body matches BlockBody::ApricotAtomic(x) ==> parent@ == x.common.parent_id@ && height
            == x.common.height && time is None && !proposes && txs@.len() == 1 && *txs@[0] == x.tx
            && proposed is None,
        b.body matches BlockBody::BanffProposal(x) ==> parent@ == x.apricot.common.parent_id@
            && height == x.apricot.common.height && time == Some(x.time) && proposes && txs@.len()
            == x.transactions.items@.len() + 1 && *txs@.last() == x.apricot.tx && proposed is Some
            && *proposed->0 == x.apricot.tx,
        b.body matches BlockBody::BanffAbort(x) ==> parent@ == x.apricot.common.parent_id@
            && height == x.apricot.common.height && time == Some(x.time) && !proposes && txs@.len()
            == 0 && proposed is None,
        b.body matches BlockBody::BanffCommit(x) ==> parent@ == x.apricot.common.parent_id@
            && height == x.apricot.common.height && time == Some(x.time) && !proposes && txs@.len()
            == 0 && proposed is None,
        b.body matches BlockBody::BanffStandard(x) ==> parent@ == x.apricot.common.parent_id@
            && height == x.apricot.common.height && time == Some(x.time) && !proposes && txs@.len()
            == x.apricot.transactions.items@.len() && proposed is None,
        b.body matches BlockBody::ApricotStandard(x) ==> forall|i: int|
            0 <= i < txs@.len() ==> *(#[trigger] txs@[i]) == x.transactions.items@[i],
        b.body matches BlockBody::BanffProposal(x) ==> forall|i: int|
            0 <= i < txs@.len() - 1 ==> *(#[trigger] txs@[i]) == x.transactions.items@[i],
        b.body matches BlockBody::BanffStandard(x) ==> forall|i: int|
            0 <= i < txs@.len() ==> *(#[trigger] txs@[i]) == x.apricot.transactions.items@[i],
{
}

/// A block follows its parent, or it is refused and nothing changes: the parent
/// is known, the height is the parent's and one more, and an atomic block is
/// never taken.
pub proof fn blocks_follow_their_parents<N: BlockAcceptanceNotifier>(
    mgr: &mut BlockManager<N>,
    b: &Block,
    r: Result<Verification>,
)
    requires
        old(mgr).wf(),
        call_ensures(BlockManager::<N>::verify, (mgr, b), r),
    ensures
        ({
            let m = old(mgr)@;
            let p = b@.common().parent_id;
            let known = m.cache.contains_key(p) || p == m.last_accepted;
            let h = if m.cache.contains_key(p) {
                m.cache[p].height
            } else {
                m.state.height
            };
            let empty = m.cache.contains_key(p) && m.cache[p].on_accept is None
                && m.cache[p].on_commit is None;
            let not_found = Error::Database(DbError::NotFound);
            &&& r is Err && !(r->Err_0 is Database) ==> known
            &&& r is Err ==> final(mgr)@ == m
            &&& !known || empty ==> r is Err && r->Err_0 == not_found
            &&& known && !empty && h == u64::MAX ==> r is Err && r->Err_0 == Error::Overflow
            &&& known && !empty && h < u64::MAX && b@.common().height != h + 1 ==> r is Err
                && r->Err_0 == Error::WrongTxType
            &&& b@ is ApricotAtomic ==> r is Err
            &&& r is Ok ==> known && b@.common().height == h + 1
        }),
{
}

/// A block of transactions is taken up on a fresh layer over the state after its
/// parent, with its time still ahead. It is refused where that state is not
/// settled or its time cannot be told.
pub proof fn transactions_run_on_the_parents_state<N: BlockAcceptanceNotifier>(
    mgr: &mut BlockManager<N>,
    b: &Block,
    r: Result<Verification>,
)
    requires
        old(mgr).wf(),
        call_ensures(BlockManager::<N>::verify, (mgr, b), r),
        b@ is ApricotStandard || b@ is BanffStandard,
    ensures
        ({
            let m = old(mgr)@;
            let p = b@.common().parent_id;
            &&& final(mgr)@ == m
            &&& m.cache.contains_key(p) && m.cache[p].on_accept is None ==> r is Err
            &&& (b@ matches BlockBodyView::BanffStandard(x) && x.time > 0x7fff_ffff_ffff_ffff)
                ==> r is Err
            &&& r matches Ok(v) ==> {
                &&& v matches Verification::Standard(run)
                &&& m.cache.contains_key(p) ==> Some(run.layer().below()) == Some(
                    Parent::Layer(m.cache[p].on_accept->0),
                )
                &&& !m.cache.contains_key(p) ==> run.layer().below() == m.base
                &&& run.layer().wf()
                &&& run.layer()@ == DiffView::none()
                &&& run.done_count() == 0
                &&& b@ is ApricotStandard ==> run.time_ahead() is None
                &&& b@ matches BlockBodyView::BanffStandard(x) ==> run.time_ahead() == Some(x.time)
            }
            &&& p == m.last_accepted && !m.cache.contains_key(p) && m.state.height < u64::MAX
                && b@.common().height == m.state.height + 1 && (b@ is ApricotStandard || (
            b@->BanffStandard_0.time <= 0x7fff_ffff_ffff_ffff)) ==> r is Ok
        }),
{
}

/// A proposal is taken up on two fresh layers over the state after its parent,
/// one for each way that it may go.
pub proof fn proposals_run_both_ways<N: BlockAcceptanceNotifier>(
    mgr: &mut BlockManager<N>,
    b: &Block,
    r: Result<Verification>,
)
    requires
        old(mgr).wf(),
        call_ensures(BlockManager::<N>::verify, (mgr, b), r),
        b@ is ApricotProposal || b@ is BanffProposal,
    ensures
        ({
            let m = old(mgr)@;
            let p = b@.common().parent_id;
            &&& final(mgr)@ == m
            &&& m.cache.contains_key(p) && m.cache[p].on_accept is None ==> r is Err
            &&& (b@ matches BlockBodyView::BanffProposal(x) && x.time > 0x7fff_ffff_ffff_ffff)
                ==> r is Err
            &&& r matches Ok(v) ==> {
                &&& v matches Verification::Proposal(run)
                &&& m.cache.contains_key(p) ==> run.commit_layer().below() == Parent::Layer(
                    m.cache[p].on_accept->0,
                )
                &&& !m.cache.contains_key(p) ==> run.commit_layer().below() == m.base
                &&& run.abort_layer().below() == run.commit_layer().below()
                &&& run.commit_layer()@ == DiffView::none()
                &&& run.abort_layer()@ == DiffView::none()
                &&& b@ is ApricotProposal ==> run.time_ahead() is None
                &&& b@ matches BlockBodyView::BanffProposal(x) ==> run.time_ahead() == Some(x.time)
            }
            &&& p == m.last_accepted && !m.cache.contains_key(p) && m.state.height < u64::MAX
                && b@.common().height == m.state.height + 1 && (b@ is ApricotProposal || (
            b@->BanffProposal_0.time <= 0x7fff_ffff_ffff_ffff)) ==> r is Ok
        }),
{
}

/// An option takes over the layer that its proposal has for it: a commit the one
/// for committing, an abort the one for aborting. Without a proposal there is
/// nothing to choose.
pub proof fn options_choose_their_layer<N: BlockAcceptanceNotifier>(
    mgr: &mut BlockManager<N>,
    b: &Block,
    r: Result<Verification>,
)
    requires
        old(mgr).wf(),
        call_ensures(BlockManager::<N>::verify, (mgr, b), r),
        b@ is ApricotCommit || b@ is BanffCommit || b@ is ApricotAbort || b@ is BanffAbort,
    ensures
        ({
            let m = old(mgr)@;
            let p = b@.common().parent_id;
            let id = b.cache().id;
            let commits = b@ is ApricotCommit || b@ is BanffCommit;
            let layer = if commits {
                m.cache[p].on_commit
            } else {
                m.cache[p].on_abort
            };
            let follows = m.cache.contains_key(p) && m.cache[p].height < u64::MAX
                && b@.common().height == m.cache[p].height + 1;
            &&& !m.cache.contains_key(p) ==> r is Err
            &&& follows && layer is None ==> r is Err && r->Err_0 == Error::Database(
                DbError::NotFound,
            )
            &&& follows && layer is Some && (m.cache[p].on_accept is Some
                || m.cache[p].on_commit is Some) ==> r is Ok
            &&& r matches Ok(v) ==> {
                &&& v is Done
                &&& final(mgr)@.cache.contains_key(id)
                &&& final(mgr)@.cache[id].on_accept == layer
                &&& final(mgr)@.cache[id].on_commit is None
                &&& final(mgr)@.cache[id].on_abort is None
                &&& final(mgr)@.cache[id].height == b@.common().height
                &&& final(mgr)@.cache[id].timestamp == m.cache[p].timestamp
                &&& final(mgr)@.state == m.state
                &&& final(mgr)@.last_accepted == m.last_accepted
                &&& forall|k: Seq<u8>|
                    k != id ==> (#[trigger] final(mgr)@.cache.contains_key(k)
                        == m.cache.contains_key(k)) && (m.cache.contains_key(k)
                        ==> final(mgr)@.cache[k] == m.cache[k])
            }
        }),
{
}

/// The work for a block comes in order: the time first, then its transactions
/// one after the other, each with its unsigned bytes, and nothing behind the
/// last.
pub proof fn work_comes_in_order(
    run: &StandardRun,
    c: &Manager,
    b: &Block,
    r: Result<Work>,
    txs: Vec<&Tx>,
)
    requires
        run.done_count() <= txs@.len(),
        call_ensures(StandardRun::work, (run, c, b), r),
        call_ensures(Block::txs, (b,), txs),
    ensures
        run.time_ahead() matches Some(t) ==> r == Ok::<Work, Error>(Work::AdvanceTime(t)),
        run.time_ahead() is None && run.done_count() == txs@.len() ==> r == Ok::<Work, Error>(
            Work::Nothing,
        ),
        run.time_ahead() is None && run.done_count() < txs@.len() ==> (r matches Ok(w)
            ==> w is Execute && w->Execute_0@ == versioned::<UnsignedTx>(
            txs@[run.done_count() as int].unsigned@,
        )),
{
}

/// Work that failed leaves a block as it was, for the same reason. Work that was
/// done moves it on: the time is behind it, or one transaction more is executed
/// and stored with the changes.
pub proof fn work_that_is_done_moves_a_block_on(
    run: &mut StandardRun,
    b: &Block,
    outcome: Result<()>,
    r: Result<()>,
    txs: Vec<&Tx>,
)
    requires
        old(run).layer().wf(),
        old(run).done_count() <= txs@.len(),
        !(old(run).time_ahead() is None && old(run).done_count() == txs@.len()),
        call_ensures(StandardRun::done, (run, b, outcome), r),
        call_ensures(Block::txs, (b,), txs),
    ensures
        outcome matches Err(e) ==> r == Err::<(), Error>(e) && *final(run) == *old(run),
        outcome is Ok ==> {
            &&& r is Ok
            &&& final(run).time_ahead() is None
            &&& old(run).time_ahead() is Some ==> final(run).done_count() == old(run).done_count()
                && final(run).layer() == old(run).layer()
            &&& old(run).time_ahead() is None ==> {
                let tx = txs@[old(run).done_count() as int];
                &&& final(run).done_count() == old(run).done_count() + 1
                &&& final(run).layer()@.txs.contains_key(tx.cache().id)
                &&& final(run).layer()@.txs[tx.cache().id] == tx.cache().bytes
                &&& final(run).layer().below() == old(run).layer().below()
                &&& (DiffView { txs: old(run).layer()@.txs, ..final(run).layer()@ })
                    == old(run).layer()@
            }
        },
{
}

/// What is kept of a block of transactions is the layer that they ran on; of a
/// proposal, both layers and which way it rather goes.
pub proof fn finished_blocks_are_kept<N: BlockAcceptanceNotifier>(
    mgr: &mut BlockManager<N>,
    b: &Block,
    outcome: Outcome,
)
    requires
        old(mgr).wf(),
        call_ensures(BlockManager::<N>::finish, (mgr, b, outcome), ()),
    ensures
        ({
            let m = old(mgr)@;
            let f = final(mgr)@;
            let id = b.cache().id;
            &&& f.state == m.state && f.last_accepted == m.last_accepted && f.base == m.base
            &&& outcome is Nothing ==> f == m
            &&& outcome matches Outcome::Standard(run) ==> {
                &&& f.cache.contains_key(id)
                &&& f.cache[id].on_accept == Some(Arc::new(run.layer()))
                &&& f.cache[id].on_commit is None && f.cache[id].on_abort is None
                &&& f.cache[id].height == b@.common().height
                &&& f.cache[id].timestamp == run.layer().model().timestamp
            }
            &&& outcome matches Outcome::Proposal(run, prefers) ==> {
                &&& f.cache.contains_key(id)
                &&& f.cache[id].on_accept is None
                &&& f.cache[id].on_commit == Some(Arc::new(run.commit_layer()))
                &&& f.cache[id].on_abort == Some(Arc::new(run.abort_layer()))
                &&& f.cache[id].prefers_commit == prefers
                &&& f.cache[id].height == b@.common().height
                &&& f.cache[id].timestamp == run.abort_layer().model().timestamp
            }
            &&& forall|k: Seq<u8>|
                k != id ==> (#[trigger] f.cache.contains_key(k) == m.cache.contains_key(k)) && (
                m.cache.contains_key(k) ==> f.cache[k] == m.cache[k])
        }),
{
}

/// A rejected block is forgotten, and nothing else changes.
pub proof fn a_rejected_block_is_forgotten<N: BlockAcceptanceNotifier>(
    mgr: &mut BlockManager<N>,
    b: &Block,
)
    requires
        old(mgr).wf(),
        call_ensures(BlockManager::<N>::reject, (mgr, b), ()),
    ensures
        !final(mgr)@.cache.contains_key(b.cache().id),
        forall|k: Seq<u8>|
            k != b.cache().id ==> (#[trigger] final(mgr)@.cache.contains_key(k)
                == old(mgr)@.cache.contains_key(k)) && (old(mgr)@.cache.contains_key(k)
                ==> final(mgr)@.cache[k] == old(mgr)@.cache[k]),
        final(mgr)@.state == old(mgr)@.state,
        final(mgr)@.last_accepted == old(mgr)@.last_accepted,
{
}

/// A verified proposal that is accepted only becomes the last accepted block:
/// nothing is stored of it, and its options can still be accepted. One that was
/// not verified is not accepted.
pub proof fn an_accepted_proposal_waits_for_its_option<N: BlockAcceptanceNotifier>(
    mgr: &mut BlockManager<N>,
    b: &Block,
    r: Result<()>,
)
    requires
        old(mgr).wf(),
        call_ensures(BlockManager::<N>::accept, (mgr, b), r),
        b@ is ApricotProposal || b@ is BanffProposal,
    ensures
        r is Ok <==> old(mgr)@.cache.contains_key(b.cache().id),
        r is Err ==> r == Err::<(), Error>(Error::Database(DbError::NotFound)) && final(mgr)@
            == old(mgr)@,
        r is Ok ==> final(mgr)@.last_accepted == b.cache().id,
        final(mgr)@.state == old(mgr)@.state,
        final(mgr)@.cache == old(mgr)@.cache,
{
}

proof fn lemma_with_txs(stored: Map<Seq<u8>, Seq<u8>>, txs: Seq<Tx>, i: int)
    requires
        0 <= i < txs.len(),
        forall|j: int|
            0 <= j < txs.len() && (#[trigger] txs[j]).cache().id == txs[i].cache().id
                ==> txs[j].cache().bytes == txs[i].cache().bytes,
    ensures
        with_txs(stored, txs).contains_key(txs[i].cache().id),
        with_txs(stored, txs)[txs[i].cache().id] == txs[i].cache().bytes,
    decreases txs.len(),
{
    let rest = txs.drop_last();
    if i < txs.len() - 1 {
        assert(rest[i] == txs[i]);
        assert forall|j: int|
            0 <= j < rest.len() && (#[trigger] rest[j]).cache().id == rest[i].cache().id implies
            rest[j].cache().bytes == rest[i].cache().bytes by {
            assert(rest[j] == txs[j]);
        }
        lemma_with_txs(stored, rest, i);
        assert(txs[txs.len() - 1] == txs.last());
    }
}

proof fn lemma_other_txs_stay(stored: Map<Seq<u8>, Seq<u8>>, txs: Seq<Tx>, k: Seq<u8>)
    requires
        forall|j: int| 0 <= j < txs.len() ==> (#[trigger] txs[j]).cache().id != k,
    ensures
        with_txs(stored, txs).contains_key(k) == stored.contains_key(k),
        stored.contains_key(k) ==> with_txs(stored, txs)[k] == stored[k],
    decreases txs.len(),
{
    if txs.len() > 0 {
        let rest = txs.drop_last();
        assert forall|j: int| 0 <= j < rest.len() implies (#[trigger] rest[j]).cache().id != k by {
            assert(rest[j] == txs[j]);
        }
        lemma_other_txs_stay(stored, rest, k);
        assert(txs[txs.len() - 1] == txs.last());
    }
}

/// A verified block that is accepted is found by its id and its height, its
/// transactions by theirs; it is the last accepted block, and its changes are
/// made to the state. It is not undecided any more, and neither is the proposal
/// that it is an option of; every other block is. One that was not verified is
/// not accepted, and nothing changes.
pub proof fn an_accepted_block_is_stored<N: BlockAcceptanceNotifier>(
    mgr: &mut BlockManager<N>,
    b: &Block,
    r: Result<()>,
    txs: Vec<&Tx>,
    i: int,
    k: Seq<u8>,
)
    requires
        old(mgr).wf(),
        call_ensures(BlockManager::<N>::accept, (mgr, b), r),
        call_ensures(Block::txs, (b,), txs),
        !(b@ is ApricotProposal || b@ is BanffProposal),
    ensures
        ({
            let m = old(mgr)@;
            let f = final(mgr)@;
            let id = b.cache().id;
            let p = b@.common().parent_id;
            let option = b@ is ApricotCommit || b@ is BanffCommit || b@ is ApricotAbort
                || b@ is BanffAbort;
            &&& r is Ok <==> m.cache.contains_key(id) && m.cache[id].on_accept is Some
            &&& r is Err ==> r == Err::<(), Error>(Error::Database(DbError::NotFound)) && f == m
            &&& r is Ok ==> {
                let after = m.cache[id].on_accept->0@.over(m.state.chain);
                &&& f.state.blocks.contains_key(id) && f.state.blocks[id] == b.cache().bytes
                &&& f.state.block_index.contains_key(be(b@.common().height as nat, 8))
                &&& f.state.block_index[be(b@.common().height as nat, 8)] == id
                &&& f.state.last_accepted == id && f.last_accepted == id
                &&& f.state.height == b@.common().height
                &&& (ChainView { txs: after.txs, ..f.state.chain }) == after
                &&& !f.cache.contains_key(id)
                &&& option ==> !f.cache.contains_key(p)
                &&& k != id && !(option && k == p) ==> f.cache.contains_key(k)
                    == m.cache.contains_key(k) && (m.cache.contains_key(k) ==> f.cache[k]
                    == m.cache[k])
                &&& k != id && m.state.blocks.contains_key(k) ==> f.state.blocks.contains_key(k)
                    && f.state.blocks[k] == m.state.blocks[k]
                &&& (0 <= i < txs@.len() && forall|j: int|
                    0 <= j < txs@.len() && (#[trigger] txs@[j]).cache().id == txs@[i].cache().id
                        ==> txs@[j].cache().bytes == txs@[i].cache().bytes) ==> {
                    &&& f.state.chain.txs.contains_key(txs@[i].cache().id)
                    &&& f.state.chain.txs[txs@[i].cache().id] == txs@[i].cache().bytes
                }
                &&& (forall|j: int| 0 <= j < txs@.len() ==> (#[trigger] txs@[j]).cache().id != k)
                    ==> f.state.chain.txs.contains_key(k) == after.txs.contains_key(k) && (
                after.txs.contains_key(k) ==> f.state.chain.txs[k] == after.txs[k])
            }
        }),
{
    let m = old(mgr)@;
    let id = b.cache().id;
    if r is Ok {
        let list = b.body.tx_list();
        let after = m.cache[id].on_accept->0@.over(m.state.chain);
        assert(final(mgr)@.state.ledger().blocks == final(mgr)@.state.blocks);
        assert(final(mgr)@.state.ledger().block_index == final(mgr)@.state.block_index);
        assert(final(mgr)@.state.ledger().height == final(mgr)@.state.height);
        assert(final(mgr)@.state.ledger().last_accepted == final(mgr)@.state.last_accepted);
        if 0 <= i < txs@.len() && forall|j: int|
            0 <= j < txs@.len() && (#[trigger] txs@[j]).cache().id == txs@[i].cache().id
                ==> txs@[j].cache().bytes == txs@[i].cache().bytes {
            assert(*txs@[i] == list[i]);
            assert forall|j: int|
                0 <= j < list.len() && (#[trigger] list[j]).cache().id == list[i].cache().id implies
                list[j].cache().bytes == list[i].cache().bytes by {
                assert(*txs@[j] == list[j]);
            }
            lemma_with_txs(after.txs, list, i);
        }
        if forall|j: int| 0 <= j < txs@.len() ==> (#[trigger] txs@[j]).cache().id != k {
            assert forall|j: int| 0 <= j < list.len() implies (#[trigger] list[j]).cache().id
                != k by {
                assert(*txs@[j] == list[j]);
            }
            lemma_other_txs_stay(after.txs, list, k);
        }
    }
}

/// The two options of a verified proposal stand behind it, one height up, and
/// have its time where it has one. One commits and the other aborts, the
/// preferred one first. A block that is no verified proposal has none.
pub proof fn a_proposal_has_two_options<N: BlockAcceptanceNotifier>(
    mgr: &BlockManager<N>,
    b: &Block,
    r: Result<(Block, Block)>,
)
    requires
        mgr.wf(),
        call_ensures(BlockManager::<N>::options, (mgr, b), r),
    ensures
        !mgr@.cache.contains_key(b.cache().id) || !(b@ is ApricotProposal || b@ is BanffProposal)
            ==> r is Err && r->Err_0 == Error::WrongTxType,
        r matches Ok((first, second)) ==> {
            let commit = if mgr@.cache[b.cache().id].prefers_commit {
                first
            } else {
                second
            };
            let abort = if mgr@.cache[b.cache().id].prefers_commit {
                second
            } else {
                first
            };
            &&& commit@.common().parent_id == b.cache().id
            &&& abort@.common().parent_id == b.cache().id
            &&& commit@.common().height == b@.common().height + 1
            &&& abort@.common().height == b@.common().height + 1
            &&& b@ is ApricotProposal ==> commit@ is ApricotCommit && abort@ is ApricotAbort
            &&& b@ matches BlockBodyView::BanffProposal(x) ==> {
                &&& commit@ matches BlockBodyView::BanffCommit(y) && y.time == x.time
                &&& abort@ matches BlockBodyView::BanffAbort(z) && z.time == x.time
            }
            &&& commit.cache().bytes == versioned::<BlockBody>(commit@)
            &&& abort.cache().bytes == versioned::<BlockBody>(abort@)
        },
{
}

/// What a reward depends on is what the transaction says: for a validator of any
/// subnet the owner of the validation reward, for one of the primary network the
/// owner of the reward, and in both its outputs and what is staked. Other
/// transactions are not rewarded.
pub proof fn validators_are_rewarded_as_they_asked(tx: &Tx, r: Option<RewardedStakerTx>)
    requires
        call_ensures(rewarded_staker_tx, (tx,), r),
    ensures
        tx.unsigned@ matches UnsignedTxView::AddPermissionlessValidator(t) ==> {
            &&& r is Some
            &&& r->0.validation_rewards_owner@ == t.validator_rewards_owner
            &&& r->0.stake@ == t.stake_outs
            &&& r->0.outputs@ == t.base.outs
        },
        tx.unsigned@ matches UnsignedTxView::AddValidator(t) ==> {
            &&& r is Some
            &&& r->0.validation_rewards_owner@ == t.rewards_owner
            &&& r->0.stake@ == t.stake_outs
            &&& r->0.outputs@ == t.base.outs
        },
        !(tx.unsigned@ is AddPermissionlessValidator || tx.unsigned@ is AddValidator) ==> r is None,
{
}

/// What the reward of a stored validator depends on is what its transaction
/// says.
pub proof fn stored_validators_are_rewarded_as_they_asked(
    codec: &Manager,
    parent: &Parent,
    id: Id,
    r: Option<RewardedStakerTx>,
)
    requires
        parent.wf(),
        call_ensures(resolve_staker_tx, (codec, parent, id), r),
    ensures
        !parent.model().txs.contains_key(id@) ==> r is None,
        parent.model().txs.contains_key(id@) ==> match unversioned::<Tx>(
            codec.max_size as nat,
            parent.model().txs[id@],
        ) {
            Ok(v) => {
                &&& v.unsigned matches UnsignedTxView::AddPermissionlessValidator(t) ==> r is Some
                    && r->0.validation_rewards_owner@ == t.validator_rewards_owner && r->0.stake@
                    == t.stake_outs && r->0.outputs@ == t.base.outs
                &&& v.unsigned matches UnsignedTxView::AddValidator(t) ==> r is Some
                    && r->0.validation_rewards_owner@ == t.rewards_owner && r->0.stake@
                    == t.stake_outs && r->0.outputs@ == t.base.outs
                &&& !(v.unsigned is AddPermissionlessValidator || v.unsigned is AddValidator)
                    ==> r is None
            },
            Err(_) => r is None,
        },
{
}

/// What is known of a block: its time and height while it is undecided, those of
/// the stored state for the last accepted one; the state behind it is its
/// layer, that of its commit for a proposal, or the stored one.
pub proof fn what_is_known_of_a_block<N: BlockAcceptanceNotifier>(
    mgr: &BlockManager<N>,
    id: Id,
    time: u64,
    height: Result<u64>,
    state: Option<Parent>,
)
    requires
        mgr.wf(),
        call_ensures(BlockManager::<N>::timestamp, (mgr, id), time),
        call_ensures(BlockManager::<N>::parent_height, (mgr, id), height),
        call_ensures(BlockManager::<N>::get_state_for_verify, (mgr, id), state),
    ensures
        mgr@.cache.contains_key(id@) ==> {
            let st = mgr@.cache[id@];
            &&& time == st.timestamp
            &&& height == Ok::<u64, Error>(st.height)
            &&& st.on_accept matches Some(d) ==> state == Some(Parent::Layer(d))
            &&& st.on_accept is None ==> match st.on_commit {
                Some(d) => state == Some(Parent::Layer(d)),
                None => state is None,
            }
        },
        !mgr@.cache.contains_key(id@) ==> time == mgr@.state.chain.timestamp,
        !mgr@.cache.contains_key(id@) && id@ == mgr@.last_accepted ==> height == Ok::<u64, Error>(
            mgr@.state.height,
        ) && state == Some(mgr@.base) && mgr@.base.model() == mgr@.state.chain,
        !mgr@.cache.contains_key(id@) && id@ != mgr@.last_accepted ==> height == Err::<u64, Error>(
            Error::Database(DbError::NotFound),
        ) && state is None,
{
    mgr.base_reads_the_stored_state();
}

/// What is built behind a block starts from its own layer where it is undecided
/// and proposes nothing, and from the stored state behind the last accepted
/// block. Behind a proposal, or a block that is not known, nothing starts.
pub proof fn layers_start_from_their_parent<N: BlockAcceptanceNotifier>(
    mgr: &BlockManager<N>,
    id: Id,
    state: Option<Parent>,
    layer: Result<Diff>,
    known: Option<&BlockState>,
)
    requires
        mgr.wf(),
        call_ensures(BlockManager::<N>::get_state, (mgr, id), state),
        call_ensures(BlockManager::<N>::new_diff, (mgr, id), layer),
        call_ensures(BlockManager::<N>::cached, (mgr, id), known),
    ensures
        known matches Some(st) ==> state == match st.on_accept {
            Some(d) => Some(Parent::Layer(d)),
            None => None,
        },
        known is None && id@ == mgr@.last_accepted ==> state == Some(mgr@.base),
        known is None && id@ != mgr@.last_accepted ==> state is None,
        known is Some <==> mgr@.cache.contains_key(id@),
        state matches Some(p) ==> layer is Ok && layer->Ok_0.below() == p
            && layer->Ok_0.model() == p.model(),
        state is None ==> layer == Err::<Diff, Error>(Error::Database(DbError::NotFound)),
{
}

/// A new manager decides nothing yet, over the state that it was given.
pub proof fn a_new_manager_decides_nothing<N: BlockAcceptanceNotifier>(
    state: State,
    codec: Manager,
    notifier: N,
    mgr: BlockManager<N>,
    last: Id,
    id: Id,
    known: Option<&BlockState>,
)
    requires
        state.wf(),
        call_ensures(BlockManager::<N>::new, (state, codec, notifier), mgr),
        call_ensures(BlockManager::<N>::last_accepted, (&mgr,), last),
        call_ensures(BlockManager::<N>::cached, (&mgr, id), known),
    ensures
        mgr.wf(),
        known is None,
        last@ == state@.last_accepted,
        mgr@.state == state@,
        mgr@.codec == codec,
        mgr.hearer() == notifier,
{
}

/// A block that others have decided is taken whole: it is the last accepted one,
/// and unless it only proposes, it is stored and its own work becomes part of the
/// state. One that is refused changes nothing.
pub proof fn decided_blocks_are_taken<N: BlockAcceptanceNotifier>(
    mgr: &mut BlockManager<N>,
    b: &Block,
    outcome: Outcome,
    r: Result<()>,
)
    requires
        old(mgr).wf(),
        refusal(old(mgr)@, b@) is None ==> outcome.completes(
            b,
            old(mgr)@.state_at(b@.common().parent_id),
        ),
        call_ensures(BlockManager::<N>::accept_non_verifying, (mgr, b, outcome), r),
    ensures
        ({
            let m = old(mgr)@;
            let f = final(mgr)@;
            let id = b.cache().id;
            &&& r is Err ==> f == m
            &&& r is Ok ==> f.last_accepted == id
            &&& r is Ok && b@.proposal() ==> f.state == m.state && f.cache.contains_key(id)
            &&& r is Ok && !b@.proposal() ==> {
                &&& f.state.blocks.contains_key(id) && f.state.blocks[id] == b.cache().bytes
                &&& f.state.height == b@.common().height
                &&& f.state.last_accepted == id
                &&& !f.cache.contains_key(id)
            }
            &&& (r is Ok && outcome is Standard && !b@.proposal()
                && !(b@ is ApricotCommit || b@ is ApricotAbort || b@ is BanffCommit
                || b@ is BanffAbort)) ==> {
                let after = outcome->Standard_0.layer()@.over(m.state.chain);
                (ChainView { txs: after.txs, ..f.state.chain }) == after
            }
        }),
{
    if r is Ok && !b@.proposal() {
        assert(final(mgr)@.state.ledger().blocks == final(mgr)@.state.blocks);
        assert(final(mgr)@.state.ledger().height == final(mgr)@.state.height);
        assert(final(mgr)@.state.ledger().last_accepted == final(mgr)@.state.last_accepted);
    }
}

} // verus!
