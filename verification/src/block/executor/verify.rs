//! Verifying blocks. Executing transactions and advancing the time is the work
//! of others: here stands what a block must meet first, which layers of changes
//! the work is done on and in which order, and what is kept of it.
use std::sync::Arc;
use vstd::prelude::*;

use crate::block::block::Block;
use crate::block::body::{BlockBody, BlockBodyView};
use crate::block::executor::manager::{BlockAcceptanceNotifier, BlockManager, BlockState, ManagerView};
use crate::codec::CodecError;
use crate::collections::ordmap::Dup;
use crate::error::{not_found, DbError, Error, Result};
use crate::ids::Id;
use crate::order::bytes_copy;
use crate::state::chain::{Chain, ChainView};
use crate::state::diff::{Diff, DiffView, Parent};
use crate::txs::components::{Owner, OwnerView, TransferableOutput, TransferableOutputView};
use crate::txs::tx::Tx;
use crate::txs::unsigned::{UnsignedTx, UnsignedTxView};
use crate::wire::{unversioned, versioned, List, Manager, Wire};

verus! {

/// The last time that can be told, in Unix seconds.
pub const LAST_SECOND: u64 = 0x7fff_ffff_ffff_ffff;

/// What a block asks for.
pub enum Kind {
    /// To execute its transactions.
    Standard,
    /// To execute its proposal both ways.
    Proposal,
    /// To commit its parent, or to abort it.
    Choice(bool),
    /// To move value between chains, which is not supported.
    Atomic,
}

/// What a block with the body `v` asks for.
pub open spec fn kind_of(v: BlockBodyView) -> Kind {
    match v {
        BlockBodyView::ApricotProposal(_) => Kind::Proposal,
        BlockBodyView::ApricotAbort(_) => Kind::Choice(false),
        BlockBodyView::ApricotCommit(_) => Kind::Choice(true),
        BlockBodyView::ApricotStandard(_) => Kind::Standard,
        BlockBodyView::ApricotAtomic(_) => Kind::Atomic,
        BlockBodyView::BanffProposal(_) => Kind::Proposal,
        BlockBodyView::BanffAbort(_) => Kind::Choice(false),
        BlockBodyView::BanffCommit(_) => Kind::Choice(true),
        BlockBodyView::BanffStandard(_) => Kind::Standard,
    }
}

/// The layer of changes that committing or aborting a proposal chooses.
pub open spec fn chosen(st: BlockState, commit: bool) -> Option<Arc<Diff>> {
    if commit {
        st.on_commit
    } else {
        st.on_abort
    }
}

/// Why a block with the body `v` is refused before any of its work is done, if
/// it is: its parent is not known, its height does not follow the parent's, its
/// time cannot be told, or there is nothing for it to choose from.
pub open spec fn refusal(m: ManagerView, v: BlockBodyView) -> Option<Error> {
    let parent = v.common().parent_id;
    match (m.state_for_verify(parent), m.height_of(parent)) {
        (Some(_), Some(h)) => if h == u64::MAX {
            Some(Error::Overflow)
        } else if v.common().height != h + 1 {
            Some(Error::WrongTxType)
        } else {
            match kind_of(v) {
                Kind::Atomic => Some(Error::WrongTxType),
                Kind::Choice(commit) => if m.cache.contains_key(parent) && chosen(
                    m.cache[parent],
                    commit,
                ) is Some {
                    None
                } else {
                    Some(not_found())
                },
                _ => if m.state_at(parent) is None {
                    Some(not_found())
                } else if v.time() is Some && v.time()->0 > LAST_SECOND {
                    Some(Error::Overflow)
                } else {
                    None
                },
            }
        },
        _ => Some(not_found()),
    }
}

/// A standard block whose transactions are being executed.
pub struct StandardRun {
    diff: Diff,
    time: Option<u64>,
    next: usize,
}

/// A proposal that is being executed both ways.
pub struct ProposalRun {
    on_commit: Diff,
    on_abort: Diff,
    time: Option<u64>,
}

/// What verifying a block comes to.
pub enum Verification {
    /// Its transactions are to be executed.
    Standard(StandardRun),
    /// Its proposal is to be executed both ways.
    Proposal(ProposalRun),
    /// It is verified.
    Done,
}

/// What is to be done next for a standard block.
#[derive(Debug)]
pub enum Work {
    /// Advance the time of the changes.
    AdvanceTime(u64),
    /// Execute the transaction, whose unsigned bytes these are.
    Execute(Vec<u8>),
    /// Nothing: every transaction was executed.
    Nothing,
}

/// The work that was done for a block.
pub enum Outcome {
    /// Its transactions were executed.
    Standard(StandardRun),
    /// Its proposal was executed both ways. It is rather committed, or it is
    /// not.
    Proposal(ProposalRun, bool),
    /// There was none.
    Nothing,
}

/// Whether `d` is a layer on `parent`.
pub open spec fn lies_on(d: Diff, parent: Option<Parent>) -> bool {
    d.wf() && Some(d.below()) == parent
}

/// Whether `d` is a layer without changes on `parent`.
pub open spec fn fresh(d: Diff, parent: Option<Parent>) -> bool {
    lies_on(d, parent) && d@ == DiffView::none()
}

impl StandardRun {
    /// The changes so far.
    pub closed spec fn layer(&self) -> Diff {
        self.diff
    }

    /// The time that the chain has yet to advance to.
    pub closed spec fn time_ahead(&self) -> Option<u64> {
        self.time
    }

    /// How many transactions were executed.
    pub closed spec fn done_count(&self) -> nat {
        self.next as nat
    }

    /// Whether all of the block's work is done.
    pub open spec fn finished(&self, block: &Block) -> bool {
        self.time_ahead() is None && self.done_count() == block.body.tx_list().len()
    }

    /// How many transactions were executed.
    pub fn executed(&self) -> (r: usize)
        ensures
            r == self.done_count(),
    {
        self.next
    }

    /// The changes so far.
    pub fn changes(&self) -> (r: &Diff)
        ensures
            *r == self.layer(),
    {
        &self.diff
    }

    /// The changes so far, for more to be made.
    pub fn changes_mut(&mut self) -> (r: &mut Diff)
        ensures
            *r == old(self).layer(),
            final(self).layer() == *final(r),
            final(self).time_ahead() == old(self).time_ahead(),
            final(self).done_count() == old(self).done_count(),
    {
        &mut self.diff
    }

    /// What is to be done next. A transaction that cannot be written is
    /// refused.
    pub fn work(&self, c: &Manager, block: &Block) -> (r: Result<Work>)
        requires
            self.done_count() <= block.body.tx_list().len(),
        ensures
            match self.time_ahead() {
                Some(t) => r == Ok::<Work, Error>(Work::AdvanceTime(t)),
                None => if self.done_count() < block.body.tx_list().len() {
                    let u = block.body.tx_list()[self.done_count() as int].unsigned@;
                    if UnsignedTx::fits(u) && versioned::<UnsignedTx>(u).len() <= c.max_size {
                        r matches Ok(Work::Execute(b)) && b@ == versioned::<UnsignedTx>(u)
                    } else {
                        r == Err::<Work, Error>(
                            Error::Codec(
                                if UnsignedTx::fits(u) {
                                    CodecError::TooBig
                                } else {
                                    CodecError::LengthOverflow
                                },
                            ),
                        )
                    }
                } else {
                    r == Ok::<Work, Error>(Work::Nothing)
                },
            },
    {
        if let Some(t) = self.time {
            return Ok(Work::AdvanceTime(t));
        }
        let txs = block.txs();
        if self.next < txs.len() {
            match c.marshal(&txs[self.next].unsigned) {
                Ok(b) => Ok(Work::Execute(b)),
                Err(e) => Err(Error::Codec(e)),
            }
        } else {
            Ok(Work::Nothing)
        }
    }

    /// Takes note of how the next piece of work ended. Where it failed the
    /// block is refused for the same reason. A transaction that was executed
    /// is stored with the changes.
    pub fn done(&mut self, block: &Block, outcome: Result<()>) -> (r: Result<()>)
        requires
            old(self).layer().wf(),
            old(self).done_count() <= block.body.tx_list().len(),
            !old(self).finished(block),
        ensures
            r is Ok <==> outcome is Ok,
            r matches Err(e) ==> outcome == Err::<(), Error>(e),
            final(self).layer().wf(),
            final(self).layer().below() == old(self).layer().below(),
            final(self).done_count() <= block.body.tx_list().len(),
            outcome is Err ==> *final(self) == *old(self),
            outcome is Ok ==> final(self).time_ahead() is None && match old(self).time_ahead() {
                Some(_) => {
                    &&& final(self).done_count() == old(self).done_count()
                    &&& final(self).layer() == old(self).layer()
                },
                None => {
                    let tx = block.body.tx_list()[old(self).done_count() as int];
                    &&& final(self).done_count() == old(self).done_count() + 1
                    &&& final(self).layer()@ == (DiffView {
                        txs: old(self).layer()@.txs.insert(tx.cache().id, tx.cache().bytes),
                        ..old(self).layer()@
                    })
                },
            },
    {
        match outcome {
            Ok(()) => {
                if self.time.is_some() {
                    self.time = None;
                } else {
                    let txs = block.txs();
                    let n: usize = txs.len();
                    assert(self.next < n);
                    let tx: &Tx = txs[self.next];
                    self.diff.add_tx(tx.id(), bytes_copy(tx.bytes()));
                    self.next = self.next + 1;
                }
                Ok(())
            },
            Err(e) => Err(e),
        }
    }
}

impl ProposalRun {
    /// The changes if the proposal is committed.
    pub closed spec fn commit_layer(&self) -> Diff {
        self.on_commit
    }

    /// The changes if the proposal is aborted.
    pub closed spec fn abort_layer(&self) -> Diff {
        self.on_abort
    }

    /// The time that the chain has yet to advance to.
    pub closed spec fn time_ahead(&self) -> Option<u64> {
        self.time
    }

    /// The time that the chain has yet to advance to, either way.
    pub fn time(&self) -> (r: Option<u64>)
        ensures
            r == self.time_ahead(),
    {
        self.time
    }

    /// The changes if the proposal is committed, and those if it is aborted, for
    /// more to be made.
    pub fn changes_mut(&mut self) -> (r: (&mut Diff, &mut Diff))
        ensures
            *r.0 == old(self).commit_layer(),
            *r.1 == old(self).abort_layer(),
            final(self).commit_layer() == *final(r.0),
            final(self).abort_layer() == *final(r.1),
            final(self).time_ahead() == old(self).time_ahead(),
    {
        (&mut self.on_commit, &mut self.on_abort)
    }

    /// Takes note that the time was advanced either way.
    pub fn time_advanced(&mut self)
        ensures
            final(self).time_ahead() is None,
            final(self).commit_layer() == old(self).commit_layer(),
            final(self).abort_layer() == old(self).abort_layer(),
    {
        self.time = None;
    }
}

impl Outcome {
    /// Whether it is the outcome of all the work for `block`, done on layers on
    /// `parent`.
    pub open spec fn completes(self, block: &Block, parent: Option<Parent>) -> bool {
        match kind_of(block@) {
            Kind::Standard => {
                &&& self matches Outcome::Standard(run)
                &&& lies_on(run.layer(), parent)
                &&& run.finished(block)
            },
            Kind::Proposal => {
                &&& self matches Outcome::Proposal(run, _)
                &&& lies_on(run.commit_layer(), parent)
                &&& lies_on(run.abort_layer(), parent)
                &&& run.time_ahead() is None
            },
            Kind::Choice(_) => self is Nothing,
            Kind::Atomic => false,
        }
    }
}

/// What is kept of a block once its work is done.
pub open spec fn kept(m: ManagerView, block: &Block, outcome: Outcome) -> ManagerView {
    match outcome {
        Outcome::Standard(run) => m.with(
            block.cache().id,
            BlockState {
                height: block@.common().height,
                on_accept: Some(Arc::new(run.layer())),
                on_commit: None,
                on_abort: None,
                timestamp: run.layer().model().timestamp,
                prefers_commit: true,
            },
        ),
        Outcome::Proposal(run, prefers_commit) => m.with(
            block.cache().id,
            BlockState {
                height: block@.common().height,
                on_accept: None,
                on_commit: Some(Arc::new(run.commit_layer())),
                on_abort: Some(Arc::new(run.abort_layer())),
                timestamp: run.abort_layer().model().timestamp,
                prefers_commit,
            },
        ),
        Outcome::Nothing => m,
    }
}

/// What is kept of a block that chooses: the layer that it chose.
pub open spec fn kept_choice(m: ManagerView, block: &Block, commit: bool) -> ManagerView {
    let st = m.cache[block@.common().parent_id];
    m.with(
        block.cache().id,
        BlockState {
            height: block@.common().height,
            on_accept: chosen(st, commit),
            on_commit: None,
            on_abort: None,
            timestamp: st.timestamp,
            prefers_commit: true,
        },
    )
}

impl<N: BlockAcceptanceNotifier> BlockManager<N> {
    /// Verifies a block as far as that takes no work: whether it follows a
    /// known block, and what is to be done on which layers of changes. A block
    /// that chooses takes no work at all.
    pub fn verify(&mut self, block: &Block) -> (r: Result<Verification>)
        requires
            old(self).wf(),
        ensures
            final(self).wf(),
            final(self).hearer() == old(self).hearer(),
            r is Ok <==> refusal(old(self)@, block@) is None,
            r matches Err(e) ==> Some(e) == refusal(old(self)@, block@) && final(self)@
                == old(self)@,
            r matches Ok(v) ==> {
                let parent = old(self)@.state_at(block@.common().parent_id);
                match kind_of(block@) {
                    Kind::Choice(commit) => v is Done && final(self)@ == kept_choice(
                        old(self)@,
                        block,
                        commit,
                    ),
                    Kind::Standard => {
                        &&& final(self)@ == old(self)@
                        &&& v matches Verification::Standard(run)
                        &&& fresh(run.layer(), parent)
                        &&& run.time_ahead() == block@.time()
                        &&& run.done_count() == 0
                    },
                    _ => {
                        &&& final(self)@ == old(self)@
                        &&& v matches Verification::Proposal(run)
                        &&& fresh(run.commit_layer(), parent)
                        &&& fresh(run.abort_layer(), parent)
                        &&& run.time_ahead() == block@.time()
                    },
                }
            },
    {
        let parent_id = block.parent_id();
        if self.get_state_for_verify(parent_id).is_none() {
            return Err(Error::Database(DbError::NotFound));
        }
        let parent_height: u64 = match self.parent_height(parent_id) {
            Ok(h) => h,
            Err(e) => {
                return Err(e);
            },
        };
        let expected: u64 = match parent_height.checked_add(1) {
            Some(h) => h,
            None => {
                return Err(Error::Overflow);
            },
        };
        if block.height() != expected {
            return Err(Error::WrongTxType);
        }
        match block.body() {
            BlockBody::ApricotStandard(_) => self.verify_standard(block, parent_id),
            BlockBody::BanffStandard(_) => self.verify_standard(block, parent_id),
            BlockBody::ApricotProposal(_) => self.verify_proposal(block, parent_id),
            BlockBody::BanffProposal(_) => self.verify_proposal(block, parent_id),
            BlockBody::ApricotCommit(_) => self.verify_option(block, parent_id, true),
            BlockBody::BanffCommit(_) => self.verify_option(block, parent_id, true),
            BlockBody::ApricotAbort(_) => self.verify_option(block, parent_id, false),
            BlockBody::BanffAbort(_) => self.verify_option(block, parent_id, false),
            BlockBody::ApricotAtomic(_) => Err(Error::WrongTxType),
        }
    }

    fn verify_standard(&self, block: &Block, parent_id: Id) -> (r: Result<Verification>)
        requires
            self.wf(),
        ensures
            match r {
                Ok(v) => {
                    &&& v matches Verification::Standard(run)
                    &&& fresh(run.layer(), self@.state_at(parent_id@))
                    &&& run.time_ahead() == block@.time()
                    &&& run.done_count() == 0
                    &&& told(block@.time())
                },
                Err(e) => if self@.state_at(parent_id@) is None {
                    e == not_found()
                } else {
                    e == Error::Overflow && !told(block@.time())
                },
            },
            self@.state_at(parent_id@) is None ==> r is Err,
    {
        let diff = match self.new_diff(parent_id) {
            Ok(d) => d,
            Err(e) => {
                return Err(e);
            },
        };
        match time_to_advance_to(block) {
            Ok(time) => Ok(Verification::Standard(StandardRun { diff, time, next: 0 })),
            Err(e) => Err(e),
        }
    }

    fn verify_proposal(&self, block: &Block, parent_id: Id) -> (r: Result<Verification>)
        requires
            self.wf(),
        ensures
            match r {
                Ok(v) => {
                    &&& v matches Verification::Proposal(run)
                    &&& fresh(run.commit_layer(), self@.state_at(parent_id@))
                    &&& fresh(run.abort_layer(), self@.state_at(parent_id@))
                    &&& run.time_ahead() == block@.time()
                    &&& told(block@.time())
                },
                Err(e) => if self@.state_at(parent_id@) is None {
                    e == not_found()
                } else {
                    e == Error::Overflow && !told(block@.time())
                },
            },
            self@.state_at(parent_id@) is None ==> r is Err,
    {
        let on_commit = match self.new_diff(parent_id) {
            Ok(d) => d,
            Err(e) => {
                return Err(e);
            },
        };
        let on_abort = match self.new_diff(parent_id) {
            Ok(d) => d,
            Err(e) => {
                return Err(e);
            },
        };
        match time_to_advance_to(block) {
            Ok(time) => Ok(Verification::Proposal(ProposalRun { on_commit, on_abort, time })),
            Err(e) => Err(e),
        }
    }

    fn verify_option(&mut self, block: &Block, parent_id: Id, commit: bool) -> (r: Result<
        Verification,
    >)
        requires
            old(self).wf(),
            parent_id@ == block@.common().parent_id,
        ensures
            final(self).wf(),
            final(self).hearer() == old(self).hearer(),
            r is Ok <==> old(self)@.cache.contains_key(parent_id@) && chosen(
                old(self)@.cache[parent_id@],
                commit,
            ) is Some,
            r matches Ok(v) ==> v is Done && final(self)@ == kept_choice(
                old(self)@,
                block,
                commit,
            ),
            r matches Err(e) ==> e == not_found() && final(self)@ == old(self)@,
    {
        let st: BlockState = match self.cached(parent_id) {
            Some(s) => {
                let layer: Option<Arc<Diff>> = if commit {
                    share(&s.on_commit)
                } else {
                    share(&s.on_abort)
                };
                if layer.is_none() {
                    return Err(Error::Database(DbError::NotFound));
                }
                BlockState {
                    height: block.height(),
                    on_accept: layer,
                    on_commit: None,
                    on_abort: None,
                    timestamp: s.timestamp,
                    prefers_commit: true,
                }
            },
            None => {
                return Err(Error::Database(DbError::NotFound));
            },
        };
        self.cache(block.id(), st);
        Ok(Verification::Done)
    }

    /// Keeps the work that was done for a block that is not refused.
    pub fn finish(&mut self, block: &Block, outcome: Outcome)
        requires
            old(self).wf(),
            kind_of(block@) is Choice || refusal(old(self)@, block@) is None,
            outcome.completes(block, old(self)@.state_at(block@.common().parent_id)),
        ensures
            final(self).wf(),
            final(self).hearer() == old(self).hearer(),
            final(self)@ == kept(old(self)@, block, outcome),
    {
        match outcome {
            Outcome::Standard(run) => {
                let timestamp = run.diff.timestamp();
                self.cache(
                    block.id(),
                    BlockState {
                        height: block.height(),
                        on_accept: Some(Arc::new(run.diff)),
                        on_commit: None,
                        on_abort: None,
                        timestamp,
                        prefers_commit: true,
                    },
                );
            },
            Outcome::Proposal(run, prefers_commit) => {
                let timestamp = run.on_abort.timestamp();
                self.cache(
                    block.id(),
                    BlockState {
                        height: block.height(),
                        on_accept: None,
                        on_commit: Some(Arc::new(run.on_commit)),
                        on_abort: Some(Arc::new(run.on_abort)),
                        timestamp,
                        prefers_commit,
                    },
                );
            },
            Outcome::Nothing => {},
        }
    }
}

/// Whether the time, where there is one, can be told.
pub open spec fn told(time: Option<u64>) -> bool {
    time matches Some(t) ==> t <= LAST_SECOND
}

/// The time that a block asks the chain to advance to, where it has one.
fn time_to_advance_to(block: &Block) -> (r: Result<Option<u64>>)
    ensures
        r is Ok <==> told(block@.time()),
        r matches Ok(t) ==> t == block@.time(),
        r matches Err(e) ==> e == Error::Overflow,
{
    match block.banff_timestamp() {
        Some(t) => if t <= LAST_SECOND {
            Ok(Some(t))
        } else {
            Err(Error::Overflow)
        },
        None => Ok(None),
    }
}

fn share(d: &Option<Arc<Diff>>) -> (r: Option<Arc<Diff>>)
    ensures
        r == *d,
{
    match d {
        Some(x) => Some(Arc::clone(x)),
        None => None,
    }
}

/// The transaction that a block proposes, of one that does.
pub fn proposal_tx(block: &Block) -> (r: Option<&Tx>)
    ensures
        r is Some <==> block@.proposal(),
        r matches Some(tx) ==> *tx == block.body.tx_list().last(),
{
    match block.body() {
        BlockBody::ApricotProposal(b) => Some(&b.tx),
        BlockBody::BanffProposal(b) => Some(&b.apricot.tx),
        _ => None,
    }
}

/// What a staker's reward depends on.
#[derive(Debug)]
pub struct RewardedStakerTx {
    /// The outputs of the transaction.
    pub outputs: List<TransferableOutput>,
    /// The outputs that are staked.
    pub stake: List<TransferableOutput>,
    /// Who gets the validation reward.
    pub validation_rewards_owner: Owner,
}

/// What a [`RewardedStakerTx`] holds.
#[verifier::ext_equal]
pub struct RewardedView {
    /// The outputs of the transaction.
    pub outputs: Seq<TransferableOutputView>,
    /// The outputs that are staked.
    pub stake: Seq<TransferableOutputView>,
    /// Who gets the validation reward.
    pub validation_rewards_owner: OwnerView,
}

impl View for RewardedStakerTx {
    type V = RewardedView;

    open spec fn view(&self) -> RewardedView {
        RewardedView {
            outputs: self.outputs@,
            stake: self.stake@,
            validation_rewards_owner: self.validation_rewards_owner@,
        }
    }
}

/// What the reward of the staker of `v` depends on, if `v` adds a validator.
pub open spec fn rewarded(v: UnsignedTxView) -> Option<RewardedView> {
    match v {
        UnsignedTxView::AddValidator(t) => Some(
            RewardedView {
                outputs: t.base.outs,
                stake: t.stake_outs,
                validation_rewards_owner: t.rewards_owner,
            },
        ),
        UnsignedTxView::AddPermissionlessValidator(t) => Some(
            RewardedView {
                outputs: t.base.outs,
                stake: t.stake_outs,
                validation_rewards_owner: t.validator_rewards_owner,
            },
        ),
        _ => None,
    }
}

/// What the reward of the staker of `tx` depends on, if `tx` adds a validator.
pub fn rewarded_staker_tx(tx: &Tx) -> (r: Option<RewardedStakerTx>)
    ensures
        r is Some <==> rewarded(tx.unsigned@) is Some,
        r matches Some(s) ==> Some(s@) == rewarded(tx.unsigned@),
{
    match &tx.unsigned {
        UnsignedTx::AddValidator(v) => Some(
            RewardedStakerTx {
                outputs: v.base.outs.dup(),
                stake: v.stake_outs.dup(),
                validation_rewards_owner: v.rewards_owner.dup(),
            },
        ),
        UnsignedTx::AddPermissionlessValidator(v) => Some(
            RewardedStakerTx {
                outputs: v.base.outs.dup(),
                stake: v.stake_outs.dup(),
                validation_rewards_owner: v.validator_rewards_owner.dup(),
            },
        ),
        _ => None,
    }
}

/// What the reward of the staker of the stored transaction `id` depends on.
pub open spec fn resolved(m: ChainView, max_size: nat, id: Seq<u8>) -> Option<RewardedView> {
    if m.txs.contains_key(id) {
        match unversioned::<Tx>(max_size, m.txs[id]) {
            Ok(v) => rewarded(v.unsigned),
            Err(_) => None,
        }
    } else {
        None
    }
}

/// What the reward of the staker of the transaction `id` depends on, if
/// `parent` holds that transaction and it adds a validator.
pub fn resolve_staker_tx(codec: &Manager, parent: &Parent, id: Id) -> (r: Option<
    RewardedStakerTx,
>)
    requires
        parent.wf(),
    ensures
        r is Some <==> resolved(parent.model(), codec.max_size as nat, id@) is Some,
        r matches Some(s) ==> Some(s@) == resolved(parent.model(), codec.max_size as nat, id@),
{
    let bytes = match parent.get_tx(id) {
        Ok(b) => b,
        Err(_) => {
            return None;
        },
    };
    match Tx::parse(codec, bytes.as_slice()) {
        Ok(tx) => rewarded_staker_tx(&tx),
        Err(_) => None,
    }
}

} // verus!
