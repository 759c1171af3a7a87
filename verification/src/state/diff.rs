//! Layers of changes on top of the stored state.
use std::sync::Arc;
use vstd::prelude::*;

use crate::collections::ordmap::{increasing, Dup, Key, OrdMap};
use crate::error::{not_found, DbError, Error, Result};
use crate::ids::{Id, NodeId};
use crate::order::bytes_copy;
use crate::state::chain::{blob_bytes, id_bytes, l1_views, lists_active, with_new, Chain, ChainView, GasState, UtxoBytes, Versions};
use crate::state::l1_set::{add_weights, keyed_by_id, sorted_active, subnet_weight};
use crate::state::l1_validator::{L1Validator, L1View};
use crate::state::merge::{lemma_merged_end, lemma_merged_start, lemma_merged_step, lemma_nothing_on_top, lemma_overlaid_insert, lemma_patched_insert, merged, merged_upto, overlaid, patched};
use crate::state::metadata_validator::{zero_staking_info, StakingInfo};
use crate::state::staker::{member_key, MemberKey, Staker};
use crate::state::stakers::{lists, member_of, Stakers, StakersView};
use crate::state::state::{contains_id, copy_blobs, State};
use crate::wire::List;

verus! {

/// A change of a set of stakers.
#[derive(Clone, Copy, Debug)]
pub enum StakerOp {
    /// Adds a validator.
    PutValidator(Staker),
    /// Removes a validator.
    DeleteValidator(Staker),
    /// Adds a delegator.
    PutDelegator(Staker),
    /// Removes a delegator.
    DeleteDelegator(Staker),
}

/// A change of the unspent outputs.
#[derive(Debug)]
pub enum UtxoOp {
    /// Adds an output.
    Add(UtxoBytes),
    /// Removes an output.
    Delete,
}

impl View for UtxoOp {
    type V = Option<Seq<u8>>;

    open spec fn view(&self) -> Option<Seq<u8>> {
        match self {
            UtxoOp::Add(b) => Some(b@),
            UtxoOp::Delete => None,
        }
    }
}

/// A set of stakers after one change.
pub open spec fn after_op(v: StakersView, op: StakerOp) -> StakersView {
    match op {
        StakerOp::PutValidator(s) => v.put_validator(s),
        StakerOp::DeleteValidator(s) => v.delete_validator(s),
        StakerOp::PutDelegator(s) => v.put_delegator(s),
        StakerOp::DeleteDelegator(s) => v.delete_delegator(s),
    }
}

/// A set of stakers after the first `n` changes.
pub open spec fn after_ops(v: StakersView, ops: Seq<StakerOp>, n: nat) -> StakersView
    decreases n,
{
    if n == 0 {
        v
    } else {
        after_op(after_ops(v, ops, (n - 1) as nat), ops[n - 1])
    }
}

/// What was renewed of every current validator: what `own` says, or `below`.
pub open spec fn infos_over(
    validators: Map<Seq<u8>, Staker>,
    own: Map<Seq<u8>, StakingInfo>,
    below: Map<Seq<u8>, StakingInfo>,
) -> Map<Seq<u8>, StakingInfo> {
    Map::new(
        |k: Seq<u8>| true,
        |k: Seq<u8>|
            if !validators.contains_key(k) {
                zero_staking_info()
            } else if own.contains_key(k) {
                own[k]
            } else {
                below[k]
            },
    )
}

/// `s`, and behind it those of `added` that are not in there already.
pub open spec fn with_all_new(s: Seq<Seq<u8>>, added: Seq<Seq<u8>>) -> Seq<Seq<u8>>
    decreases added.len(),
{
    if added.len() == 0 {
        s
    } else {
        with_new(with_all_new(s, added.drop_last()), added.last())
    }
}

/// What a layer of changes lies on: the stored state, or another layer.
pub enum Parent {
    /// The stored state.
    Base(Arc<State>),
    /// Another layer.
    Layer(Arc<Diff>),
}

/// A layer of changes. What it does not change is read from below it.
pub struct Diff {
    parent: Parent,
    timestamp: Option<u64>,
    fee_state: Option<GasState>,
    l1_validator_excess: Option<u64>,
    accrued_fees: Option<u64>,
    supply: OrdMap<Id, u64>,
    utxos: OrdMap<Id, UtxoOp>,
    current_ops: Vec<StakerOp>,
    pending_ops: Vec<StakerOp>,
    current_validators: OrdMap<MemberKey, Option<Staker>>,
    staking_info: OrdMap<MemberKey, StakingInfo>,
    l1_validators: OrdMap<Id, L1Validator>,
    added_subnets: List<Id>,
    subnet_owners: OrdMap<Id, Vec<u8>>,
    subnet_managers: OrdMap<Id, Vec<u8>>,
    added_chains: OrdMap<Id, List<Id>>,
    reward_utxos: OrdMap<Id, List<Vec<u8>>>,
    txs: OrdMap<Id, Vec<u8>>,
}

/// The changes that a [`Diff`] makes.
#[verifier::ext_equal]
pub struct DiffView {
    /// The chain's time, if it changes.
    pub timestamp: Option<u64>,
    /// The gas state, if it changes.
    pub fee_state: Option<GasState>,
    /// The excess that sets the fees of L1 validators, if it changes.
    pub l1_validator_excess: Option<u64>,
    /// The fees charged to each L1 validator, if they change.
    pub accrued_fees: Option<u64>,
    /// The supplies that change.
    pub supply: Map<Seq<u8>, u64>,
    /// The outputs that are added or removed.
    pub utxos: Map<Seq<u8>, Option<Seq<u8>>>,
    /// The changes of the current stakers, in order.
    pub current_ops: Seq<StakerOp>,
    /// The changes of the pending stakers, in order.
    pub pending_ops: Seq<StakerOp>,
    /// The current validators that are added or removed.
    pub current_validators: Map<Seq<u8>, Option<Staker>>,
    /// What renewals change of current validators.
    pub staking_info: Map<Seq<u8>, StakingInfo>,
    /// The L1 validators that are added or replaced.
    pub l1_validators: Map<Seq<u8>, L1View>,
    /// The subnets that are added.
    pub added_subnets: Seq<Seq<u8>>,
    /// The owners of subnets that change.
    pub subnet_owners: Map<Seq<u8>, Seq<u8>>,
    /// The managers of subnets that change.
    pub subnet_managers: Map<Seq<u8>, Seq<u8>>,
    /// The chains that are added to each subnet.
    pub added_chains: Map<Seq<u8>, Seq<Seq<u8>>>,
    /// The outputs that are added to each transaction's rewards.
    pub reward_utxos: Map<Seq<u8>, Seq<Seq<u8>>>,
    /// The transactions that are stored.
    pub txs: Map<Seq<u8>, Seq<u8>>,
}

/// `o`, or `d` where it is not there.
pub open spec fn or_else<W>(o: Option<W>, d: W) -> W {
    match o {
        Some(w) => w,
        None => d,
    }
}

impl DiffView {
    /// No changes.
    pub open spec fn none() -> DiffView {
        DiffView {
            timestamp: None,
            fee_state: None,
            l1_validator_excess: None,
            accrued_fees: None,
            supply: Map::empty(),
            utxos: Map::empty(),
            current_ops: Seq::empty(),
            pending_ops: Seq::empty(),
            current_validators: Map::empty(),
            staking_info: Map::empty(),
            l1_validators: Map::empty(),
            added_subnets: Seq::empty(),
            subnet_owners: Map::empty(),
            subnet_managers: Map::empty(),
            added_chains: Map::empty(),
            reward_utxos: Map::empty(),
            txs: Map::empty(),
        }
    }

    /// The state that is read where the changes lie on `below`, and the state
    /// that making the changes to `below` leaves.
    pub open spec fn over(self, below: ChainView) -> ChainView {
        ChainView {
            timestamp: or_else(self.timestamp, below.timestamp),
            fee_state: or_else(self.fee_state, below.fee_state),
            l1_validator_excess: or_else(self.l1_validator_excess, below.l1_validator_excess),
            accrued_fees: or_else(self.accrued_fees, below.accrued_fees),
            supply: overlaid(below.supply, self.supply),
            utxos: patched(below.utxos, self.utxos),
            current: after_ops(below.current, self.current_ops, self.current_ops.len()),
            pending: after_ops(below.pending, self.pending_ops, self.pending_ops.len()),
            staking_info: infos_over(
                after_ops(below.current, self.current_ops, self.current_ops.len()).validators,
                self.staking_info,
                below.staking_info,
            ),
            l1_validators: overlaid(below.l1_validators, self.l1_validators),
            subnets: with_all_new(below.subnets, self.added_subnets),
            subnet_owners: overlaid(below.subnet_owners, self.subnet_owners),
            subnet_managers: overlaid(below.subnet_managers, self.subnet_managers),
            chains: merged(
                below.chains,
                self.added_chains,
                |k: Seq<u8>| Some(with_all_new(below.chains[k], self.added_chains[k])),
            ),
            reward_utxos: merged(
                below.reward_utxos,
                self.reward_utxos,
                |k: Seq<u8>| Some(below.reward_utxos[k] + self.reward_utxos[k]),
            ),
            txs: overlaid(below.txs, self.txs),
        }
    }

    /// The current validators that are added or removed are those that the
    /// changes of the current stakers add or remove, and validators only join
    /// the set that they belong to. Of one that was removed and added again it is
    /// said what was renewed.
    pub open spec fn consistent(self) -> bool {
        &&& forall|v: StakersView| #[trigger]
            after_ops(v, self.current_ops, self.current_ops.len()).validators == patched(
                v.validators,
                self.current_validators,
            )
        &&& forall|i: int|
            0 <= i < self.current_ops.len() ==> ((#[trigger] self.current_ops[i]) matches StakerOp::PutValidator(
            s) ==> s.priority.current())
        &&& forall|i: int|
            0 <= i < self.pending_ops.len() ==> ((#[trigger] self.pending_ops[i]) matches StakerOp::PutValidator(
            s) ==> !s.priority.current())
        &&& forall|i: int|
            0 <= i < self.current_ops.len() ==> ((#[trigger] self.current_ops[i]) matches StakerOp::DeleteValidator(
            s) ==> self.current_validators.contains_key(member_of(s)) && (
            self.current_validators[member_of(s)] is Some ==> self.staking_info.contains_key(
                member_of(s),
            )))
        &&& keyed_by_id(self.l1_validators)
    }
}

impl View for Diff {
    type V = DiffView;

    closed spec fn view(&self) -> DiffView {
        DiffView {
            timestamp: self.timestamp,
            fee_state: self.fee_state,
            l1_validator_excess: self.l1_validator_excess,
            accrued_fees: self.accrued_fees,
            supply: self.supply@,
            utxos: self.utxos@,
            current_ops: self.current_ops@,
            pending_ops: self.pending_ops@,
            current_validators: self.current_validators@,
            staking_info: self.staking_info@,
            l1_validators: self.l1_validators@,
            added_subnets: self.added_subnets@,
            subnet_owners: self.subnet_owners@,
            subnet_managers: self.subnet_managers@,
            added_chains: self.added_chains@,
            reward_utxos: self.reward_utxos@,
            txs: self.txs@,
        }
    }
}

impl Parent {
    /// The state.
    pub open spec fn model(&self) -> ChainView
        decreases self,
    {
        match self {
            Parent::Base(s) => s.model(),
            Parent::Layer(d) => d.read_view(),
        }
    }

    /// Whether the state is consistent.
    pub open spec fn wf(&self) -> bool
        decreases self,
    {
        match self {
            Parent::Base(s) => s.wf(),
            Parent::Layer(d) => d.all_consistent(),
        }
    }

    /// The same state, shared.
    pub fn share(&self) -> (r: Parent)
        ensures
            r == *self,
    {
        match self {
            Parent::Base(s) => Parent::Base(Arc::clone(s)),
            Parent::Layer(d) => Parent::Layer(Arc::clone(d)),
        }
    }
}

impl Diff {
    /// What the layer lies on.
    pub closed spec fn below(&self) -> Parent {
        self.parent
    }

    /// The state as the layer reads it.
    pub closed spec fn read_view(&self) -> ChainView
        decreases self,
    {
        self@.over(self.parent.model())
    }

    /// Whether the layer and all below it are consistent.
    pub closed spec fn all_consistent(&self) -> bool
        decreases self,
    {
        self@.consistent() && self.parent.wf()
    }

    /// A layer without changes on `parent`.
    pub fn on(parent: Parent) -> (r: Diff)
        requires
            parent.wf(),
        ensures
            r.wf(),
            r.below() == parent,
            r@ == DiffView::none(),
            r.model() == parent.model(),
    {
        let r = Diff {
            parent,
            timestamp: None,
            fee_state: None,
            l1_validator_excess: None,
            accrued_fees: None,
            supply: OrdMap::new(),
            utxos: OrdMap::new(),
            current_ops: Vec::new(),
            pending_ops: Vec::new(),
            current_validators: OrdMap::new(),
            staking_info: OrdMap::new(),
            l1_validators: OrdMap::new(),
            added_subnets: List { items: Vec::new() },
            subnet_owners: OrdMap::new(),
            subnet_managers: OrdMap::new(),
            added_chains: OrdMap::new(),
            reward_utxos: OrdMap::new(),
            txs: OrdMap::new(),
        };
        proof {
            assert(r.added_subnets@ =~= Seq::empty());
            assert(r@ == DiffView::none());
            let below = parent.model();
            parent.model_is_coherent();
            lemma_nothing_on_top(below.supply);
            lemma_nothing_on_top(below.utxos);
            lemma_nothing_on_top(below.current.validators);
            lemma_nothing_on_top(below.l1_validators);
            lemma_nothing_on_top(below.subnet_owners);
            lemma_nothing_on_top(below.txs);
            assert(r@.over(below) =~= below);
            assert forall|v: StakersView| #[trigger]
                after_ops(v, r@.current_ops, r@.current_ops.len()).validators == patched(
                    v.validators,
                    r@.current_validators,
                ) by {
                lemma_nothing_on_top(v.validators);
            }
        }
        r
    }
}

impl Diff {
    /// A layer without changes on the state after `parent_id`. There is none
    /// where that state is not known.
    pub fn new<V: Versions>(parent_id: Id, versions: &V) -> (r: Result<Diff>)
        requires
            versions.versions_wf(),
        ensures
            r is Ok <==> versions.state_at(parent_id@) is Some,
            r matches Ok(d) ==> {
                &&& d.wf()
                &&& Some(d.below()) == versions.state_at(parent_id@)
                &&& d@ == DiffView::none()
                &&& d.model() == d.below().model()
            },
            r matches Err(e) ==> e == not_found(),
    {
        match versions.get_state(parent_id) {
            Some(parent) => Ok(Diff::on(parent)),
            None => Err(Error::Database(DbError::NotFound)),
        }
    }

    /// What a layer reads is its changes over what it lies on.
    pub proof fn reads_over_parent(&self)
        requires
            self.wf(),
        ensures
            self@.consistent(),
            self.below().wf(),
            self.model() == self@.over(self.below().model()),
    {
    }
}

/// Making the changes of a layer to the state that it lies on gives the state
/// that the layer reads.
pub proof fn applying_agrees_with_reading(d: &Diff, base: ChainView)
    requires
        d.wf(),
        base == d.below().model(),
    ensures
        d@.over(base) == d.model(),
{
}

/// A layer without changes changes nothing where it is applied.
pub proof fn applying_nothing_changes_nothing(base: ChainView)
    requires
        base.is_coherent(),
    ensures
        DiffView::none().over(base) == base,
{
    let none = DiffView::none();
    lemma_nothing_on_top(base.supply);
    lemma_nothing_on_top(base.utxos);
    lemma_nothing_on_top(base.current.validators);
    lemma_nothing_on_top(base.l1_validators);
    lemma_nothing_on_top(base.subnet_owners);
    lemma_nothing_on_top(base.txs);
    assert(none.over(base) =~= base);
}

impl Parent {
    /// The state is coherent.
    pub proof fn model_is_coherent(&self)
        requires
            self.wf(),
        ensures
            self.model().is_coherent(),
        decreases self,
    {
        match self {
            Parent::Base(s) => s.model_is_coherent(),
            Parent::Layer(d) => d.model_is_coherent(),
        }
    }

    /// The chain's time.
    pub fn timestamp(&self) -> (r: u64)
        requires
            self.wf(),
        ensures
            r == self.model().timestamp,
        decreases self,
    {
        match self {
            Parent::Base(s) => s.timestamp(),
            Parent::Layer(d) => d.timestamp(),
        }
    }

    /// The supply of `subnet`.
    pub fn current_supply(&self, subnet: Id) -> (r: Result<u64>)
        requires
            self.wf(),
        ensures
            r is Ok,
            r->Ok_0 == self.model().supply[subnet@],
        decreases self,
    {
        match self {
            Parent::Base(s) => s.current_supply(subnet),
            Parent::Layer(d) => d.current_supply(subnet),
        }
    }

    /// The gas state.
    pub fn fee_state(&self) -> (r: GasState)
        requires
            self.wf(),
        ensures
            r == self.model().fee_state,
        decreases self,
    {
        match self {
            Parent::Base(s) => s.fee_state(),
            Parent::Layer(d) => d.fee_state(),
        }
    }

    /// The excess that sets the fees of L1 validators.
    pub fn l1_validator_excess(&self) -> (r: u64)
        requires
            self.wf(),
        ensures
            r == self.model().l1_validator_excess,
        decreases self,
    {
        match self {
            Parent::Base(s) => s.l1_validator_excess(),
            Parent::Layer(d) => d.l1_validator_excess(),
        }
    }

    /// The fees that each L1 validator has been charged so far.
    pub fn accrued_fees(&self) -> (r: u64)
        requires
            self.wf(),
        ensures
            r == self.model().accrued_fees,
        decreases self,
    {
        match self {
            Parent::Base(s) => s.accrued_fees(),
            Parent::Layer(d) => d.accrued_fees(),
        }
    }

    /// The unspent output `id`.
    pub fn get_utxo(&self, id: Id) -> (r: Result<UtxoBytes>)
        requires
            self.wf(),
        ensures
            r is Ok <==> self.model().utxos.contains_key(id@),
            r matches Ok(b) ==> b@ == self.model().utxos[id@],
            r matches Err(e) ==> e == not_found(),
        decreases self,
    {
        match self {
            Parent::Base(s) => s.get_utxo(id),
            Parent::Layer(d) => d.get_utxo(id),
        }
    }

    /// The current validator of `subnet` on `node`.
    pub fn get_current_validator(&self, subnet: Id, node: NodeId) -> (r: Result<Staker>)
        requires
            self.wf(),
        ensures
            r is Ok <==> self.model().current.validators.contains_key(member_key(subnet@, node@)),
            r matches Ok(s) ==> s == self.model().current.validators[member_key(subnet@, node@)],
            r matches Err(e) ==> e == not_found(),
        decreases self,
    {
        match self {
            Parent::Base(s) => s.get_current_validator(subnet, node),
            Parent::Layer(d) => d.get_current_validator(subnet, node),
        }
    }

    /// What renewals change of the current validator of `subnet` on `node`.
    pub fn get_staking_info(&self, subnet: Id, node: NodeId) -> (r: Result<StakingInfo>)
        requires
            self.wf(),
        ensures
            r is Ok <==> self.model().current.validators.contains_key(member_key(subnet@, node@)),
            r matches Ok(i) ==> i == self.model().staking_info[member_key(subnet@, node@)],
            r matches Err(e) ==> e == not_found(),
        decreases self,
    {
        match self {
            Parent::Base(s) => s.get_staking_info(subnet, node),
            Parent::Layer(d) => d.get_staking_info(subnet, node),
        }
    }

    /// The current stakers, in order.
    pub fn current_stakers(&self) -> (r: Vec<Staker>)
        requires
            self.wf(),
        ensures
            lists(self.model().current.set, r@),
        decreases self,
    {
        match self {
            Parent::Base(s) => s.current_stakers(),
            Parent::Layer(d) => d.current_stakers(),
        }
    }

    /// The pending stakers, in order.
    pub fn pending_stakers(&self) -> (r: Vec<Staker>)
        requires
            self.wf(),
        ensures
            lists(self.model().pending.set, r@),
        decreases self,
    {
        match self {
            Parent::Base(s) => s.pending_stakers(),
            Parent::Layer(d) => d.pending_stakers(),
        }
    }

    /// The current stakers.
    fn current_set(&self) -> (r: Stakers)
        requires
            self.wf(),
        ensures
            r.wf(),
            r@ == self.model().current,
        decreases self,
    {
        match self {
            Parent::Base(s) => s.current_set(),
            Parent::Layer(d) => d.current_set(),
        }
    }

    /// The pending stakers.
    fn pending_set(&self) -> (r: Stakers)
        requires
            self.wf(),
        ensures
            r.wf(),
            r@ == self.model().pending,
        decreases self,
    {
        match self {
            Parent::Base(s) => s.pending_set(),
            Parent::Layer(d) => d.pending_set(),
        }
    }

    /// The L1 validators.
    fn l1_set(&self) -> (r: OrdMap<Id, L1Validator>)
        requires
            self.wf(),
        ensures
            r@ == self.model().l1_validators,
        decreases self,
    {
        match self {
            Parent::Base(s) => s.l1_set(),
            Parent::Layer(d) => d.l1_set(),
        }
    }

    /// The L1 validator `validation_id`.
    pub fn get_l1_validator(&self, validation_id: Id) -> (r: Result<L1Validator>)
        requires
            self.wf(),
        ensures
            r is Ok <==> self.model().l1_validators.contains_key(validation_id@),
            r matches Ok(v) ==> v@ == self.model().l1_validators[validation_id@],
            r matches Err(e) ==> e == not_found(),
        decreases self,
    {
        match self {
            Parent::Base(s) => s.get_l1_validator(validation_id),
            Parent::Layer(d) => d.get_l1_validator(validation_id),
        }
    }

    /// The weight that the L1 validators of `subnet` add up to.
    pub fn weight_of_l1_validators(&self, subnet: Id) -> (r: Result<u64>)
        requires
            self.wf(),
        ensures
            r is Ok <==> subnet_weight(self.model().l1_validators, subnet@) <= u64::MAX,
            r matches Ok(w) ==> w == subnet_weight(self.model().l1_validators, subnet@),
            r matches Err(e) ==> e == Error::Overflow,
        decreases self,
    {
        match self {
            Parent::Base(s) => s.weight_of_l1_validators(subnet),
            Parent::Layer(d) => d.weight_of_l1_validators(subnet),
        }
    }

    /// The active L1 validators, in the order in which they are charged.
    pub fn active_l1_validators(&self) -> (r: Vec<L1Validator>)
        requires
            self.wf(),
        ensures
            lists_active(self.model().l1_validators, l1_views(r@)),
        decreases self,
    {
        match self {
            Parent::Base(s) => s.active_l1_validators(),
            Parent::Layer(d) => d.active_l1_validators(),
        }
    }

    /// The subnets, in the order in which they were created.
    pub fn subnets(&self) -> (r: Vec<Id>)
        requires
            self.wf(),
        ensures
            id_bytes(r@) == self.model().subnets,
        decreases self,
    {
        match self {
            Parent::Base(s) => s.subnets(),
            Parent::Layer(d) => d.subnets(),
        }
    }

    /// The owner of `subnet`.
    pub fn get_subnet_owner(&self, subnet: Id) -> (r: Result<Vec<u8>>)
        requires
            self.wf(),
        ensures
            r is Ok <==> self.model().subnet_owners.contains_key(subnet@),
            r matches Ok(b) ==> b@ == self.model().subnet_owners[subnet@],
            r matches Err(e) ==> e == not_found(),
        decreases self,
    {
        match self {
            Parent::Base(s) => s.get_subnet_owner(subnet),
            Parent::Layer(d) => d.get_subnet_owner(subnet),
        }
    }

    /// The manager of `subnet`.
    pub fn get_subnet_manager(&self, subnet: Id) -> (r: Result<Vec<u8>>)
        requires
            self.wf(),
        ensures
            r is Ok <==> self.model().subnet_managers.contains_key(subnet@),
            r matches Ok(b) ==> b@ == self.model().subnet_managers[subnet@],
            r matches Err(e) ==> e == not_found(),
        decreases self,
    {
        match self {
            Parent::Base(s) => s.get_subnet_manager(subnet),
            Parent::Layer(d) => d.get_subnet_manager(subnet),
        }
    }

    /// The chains of `subnet`, in the order in which they were created.
    pub fn chains(&self, subnet: Id) -> (r: Vec<Id>)
        requires
            self.wf(),
        ensures
            id_bytes(r@) == self.model().chains[subnet@],
        decreases self,
    {
        match self {
            Parent::Base(s) => s.chains(subnet),
            Parent::Layer(d) => d.chains(subnet),
        }
    }

    /// The outputs that the staker of `tx_id` was rewarded with.
    pub fn get_reward_utxos(&self, tx_id: Id) -> (r: Vec<UtxoBytes>)
        requires
            self.wf(),
        ensures
            blob_bytes(r@) == self.model().reward_utxos[tx_id@],
        decreases self,
    {
        match self {
            Parent::Base(s) => s.get_reward_utxos(tx_id),
            Parent::Layer(d) => d.get_reward_utxos(tx_id),
        }
    }

    /// The bytes of the transaction `tx_id`.
    pub fn get_tx(&self, tx_id: Id) -> (r: Result<Vec<u8>>)
        requires
            self.wf(),
        ensures
            r is Ok <==> self.model().txs.contains_key(tx_id@),
            r matches Ok(b) ==> b@ == self.model().txs[tx_id@],
            r matches Err(e) ==> e == not_found(),
        decreases self,
    {
        match self {
            Parent::Base(s) => s.get_tx(tx_id),
            Parent::Layer(d) => d.get_tx(tx_id),
        }
    }

}

proof fn lemma_ops_prefix(v: StakersView, ops: Seq<StakerOp>, op: StakerOp, n: nat)
    requires
        n <= ops.len(),
    ensures
        after_ops(v, ops.push(op), n) == after_ops(v, ops, n),
    decreases n,
{
    if n > 0 {
        lemma_ops_prefix(v, ops, op, (n - 1) as nat);
        assert(ops.push(op)[n - 1] == ops[n - 1]);
    }
}

proof fn lemma_ops_push(v: StakersView, ops: Seq<StakerOp>, op: StakerOp)
    ensures
        after_ops(v, ops.push(op), ops.push(op).len()) == after_op(
            after_ops(v, ops, ops.len()),
            op,
        ),
{
    lemma_ops_prefix(v, ops, op, ops.len());
}

/// What was added is in there.
proof fn lemma_with_all_new_has(s: Seq<Seq<u8>>, added: Seq<Seq<u8>>, x: Seq<u8>)
    ensures
        s.contains(x) || added.contains(x) ==> with_all_new(s, added).contains(x),
    decreases added.len(),
{
    if added.len() > 0 {
        let a = added.drop_last();
        let y = added.last();
        lemma_with_all_new_has(s, a, x);
        let m = with_all_new(s, a);
        if m.contains(x) {
            let i = m.index_of(x);
            assert(with_new(m, y)[i] == x);
        } else if added.contains(x) {
            let i = added.index_of(x);
            if i < a.len() {
                assert(a[i] == x);
            }
            assert(x == y);
            assert(m.push(y)[m.len() as int] == x);
        }
    }
}

/// Makes the changes `ops` to a set of stakers.
fn replay(set: &mut Stakers, ops: &Vec<StakerOp>)
    requires
        old(set).wf(),
    ensures
        final(set).wf(),
        final(set)@ == after_ops(old(set)@, ops@, ops@.len()),
{
    let n: usize = ops.len();
    let ghost start = set@;
    let mut i: usize = 0;
    while i < n
        invariant
            i <= n,
            n == ops@.len(),
            set.wf(),
            set@ == after_ops(start, ops@, i as nat),
        decreases n - i,
    {
        match &ops[i] {
            StakerOp::PutValidator(s) => {
                set.put_validator(*s);
            },
            StakerOp::DeleteValidator(s) => {
                set.delete_validator(s);
            },
            StakerOp::PutDelegator(s) => {
                set.put_delegator(*s);
            },
            StakerOp::DeleteDelegator(s) => {
                set.delete_delegator(s);
            },
        }
        i += 1;
    }
}

impl Diff {
    /// The current stakers as the layer reads them: those below, with the
    /// recorded changes made to them.
    fn current_set(&self) -> (r: Stakers)
        requires
            self.wf(),
        ensures
            r.wf(),
            r@ == self.model().current,
        decreases self,
    {
        let mut set = self.parent.current_set();
        replay(&mut set, &self.current_ops);
        set
    }

    /// The pending stakers as the layer reads them.
    fn pending_set(&self) -> (r: Stakers)
        requires
            self.wf(),
        ensures
            r.wf(),
            r@ == self.model().pending,
        decreases self,
    {
        let mut set = self.parent.pending_set();
        replay(&mut set, &self.pending_ops);
        set
    }

    /// The L1 validators as the layer reads them: those below, but for the ones
    /// that the layer replaces.
    fn l1_set(&self) -> (r: OrdMap<Id, L1Validator>)
        requires
            self.wf(),
        ensures
            r@ == self.model().l1_validators,
        decreases self,
    {
        let mut all = self.parent.l1_set();
        let n: usize = self.l1_validators.len();
        let ghost start = all@;
        let ghost over = self.l1_validators@;
        let ghost ks = self.l1_validators.keys();
        let ghost f = |k: Seq<u8>| Some(over[k]);
        let mut i: usize = 0;
        proof {
            lemma_merged_start(start, ks, f);
        }
        while i < n
            invariant
                i <= n,
                n == ks.len(),
                ks == self.l1_validators.keys(),
                over == self.l1_validators@,
                increasing(ks),
                forall|x: int|
                    0 <= x < n ==> over.contains_key(#[trigger] ks[x]) && over[ks[x]]
                        == self.l1_validators.vals()[x],
                f == (|k: Seq<u8>| Some(over[k])),
                all@ == merged_upto(start, ks, i as int, f),
            decreases n - i,
        {
            let k = *self.l1_validators.key_at(i);
            proof {
                lemma_merged_step(start, ks, i as int, f);
                assert(over.contains_key(ks[i as int]));
            }
            all.insert(k, self.l1_validators.val_at(i).dup());
            i += 1;
        }
        proof {
            lemma_merged_end(start, over, ks, f);
        }
        all
    }
}

impl Chain for Diff {
    type Rest = Parent;

    open spec fn rest(&self) -> Parent {
        self.below()
    }

    open spec fn wf(&self) -> bool {
        self.all_consistent()
    }

    open spec fn model(&self) -> ChainView {
        self.read_view()
    }

    proof fn model_is_coherent(&self)
        decreases self,
    {
        self.parent.model_is_coherent();
        self.l1_validators.keys_are_finite();
        let below = self.parent.model().l1_validators;
        assert(overlaid(below, self@.l1_validators).dom() =~= below.dom().union(
            self@.l1_validators.dom(),
        ));
    }

    fn timestamp(&self) -> (r: u64)
        decreases self,
    {
        match self.timestamp {
            Some(t) => t,
            None => self.parent.timestamp(),
        }
    }

    fn set_timestamp(&mut self, t: u64)
        ensures
            final(self)@ == (DiffView { timestamp: Some(t), ..old(self)@ }),
    {
        self.timestamp = Some(t);
        assert(self.model() =~= (ChainView { timestamp: t, ..old(self).model() }));
    }

    fn current_supply(&self, subnet: Id) -> (r: Result<u64>)
        decreases self,
    {
        proof {
            self.parent.model_is_coherent();
        }
        match self.supply.get(&subnet) {
            Some(v) => Ok(*v),
            None => self.parent.current_supply(subnet),
        }
    }

    fn set_current_supply(&mut self, subnet: Id, supply: u64)
        ensures
            final(self)@ == (DiffView {
                supply: old(self)@.supply.insert(subnet@, supply),
                ..old(self)@
            }),
    {
        proof {
            lemma_overlaid_insert(
                self.parent.model().supply,
                self.supply@,
                subnet@,
                supply,
            );
        }
        self.supply.insert(subnet, supply);
        assert(self.model() =~= (ChainView {
            supply: old(self).model().supply.insert(subnet@, supply),
            ..old(self).model()
        }));
    }

    fn fee_state(&self) -> (r: GasState)
        decreases self,
    {
        match self.fee_state {
            Some(s) => s,
            None => self.parent.fee_state(),
        }
    }

    fn set_fee_state(&mut self, s: GasState)
        ensures
            final(self)@ == (DiffView { fee_state: Some(s), ..old(self)@ }),
    {
        self.fee_state = Some(s);
        assert(self.model() =~= (ChainView { fee_state: s, ..old(self).model() }));
    }

    fn l1_validator_excess(&self) -> (r: u64)
        decreases self,
    {
        match self.l1_validator_excess {
            Some(e) => e,
            None => self.parent.l1_validator_excess(),
        }
    }

    fn set_l1_validator_excess(&mut self, excess: u64)
        ensures
            final(self)@ == (DiffView { l1_validator_excess: Some(excess), ..old(self)@ }),
    {
        self.l1_validator_excess = Some(excess);
        assert(self.model() =~= (ChainView { l1_validator_excess: excess, ..old(self).model() }));
    }

    fn accrued_fees(&self) -> (r: u64)
        decreases self,
    {
        match self.accrued_fees {
            Some(v) => v,
            None => self.parent.accrued_fees(),
        }
    }

    fn set_accrued_fees(&mut self, v: u64)
        ensures
            final(self)@ == (DiffView { accrued_fees: Some(v), ..old(self)@ }),
    {
        self.accrued_fees = Some(v);
        assert(self.model() =~= (ChainView { accrued_fees: v, ..old(self).model() }));
    }

    fn get_utxo(&self, id: Id) -> (r: Result<UtxoBytes>)
        decreases self,
    {
        match self.utxos.get(&id) {
            Some(UtxoOp::Add(b)) => Ok(bytes_copy(b.as_slice())),
            Some(UtxoOp::Delete) => Err(Error::Database(DbError::NotFound)),
            None => self.parent.get_utxo(id),
        }
    }

    fn add_utxo(&mut self, id: Id, utxo: UtxoBytes)
        ensures
            final(self)@ == (DiffView {
                utxos: old(self)@.utxos.insert(id@, Some(utxo@)),
                ..old(self)@
            }),
    {
        proof {
            lemma_patched_insert(self.parent.model().utxos, self.utxos@, id@, Some(utxo@));
        }
        let ghost u = utxo@;
        self.utxos.insert(id, UtxoOp::Add(utxo));
        assert(self.model() =~= (ChainView {
            utxos: old(self).model().utxos.insert(id@, u),
            ..old(self).model()
        }));
    }

    fn delete_utxo(&mut self, id: Id)
        ensures
            final(self)@ == (DiffView {
                utxos: old(self)@.utxos.insert(id@, None),
                ..old(self)@
            }),
    {
        proof {
            lemma_patched_insert(self.parent.model().utxos, self.utxos@, id@, None);
        }
        self.utxos.insert(id, UtxoOp::Delete);
        assert(self.model() =~= (ChainView {
            utxos: old(self).model().utxos.remove(id@),
            ..old(self).model()
        }));
    }

    fn get_current_validator(&self, subnet: Id, node: NodeId) -> (r: Result<Staker>)
        decreases self,
    {
        let k = MemberKey { subnet_id: subnet, node_id: node };
        match self.current_validators.get(&k) {
            Some(Some(s)) => Ok(*s),
            Some(None) => Err(Error::Database(DbError::NotFound)),
            None => self.parent.get_current_validator(subnet, node),
        }
    }

    fn put_current_validator(&mut self, s: Staker) -> (r: Result<()>)
        ensures
            r is Ok ==> final(self)@ == (DiffView {
                current_validators: old(self)@.current_validators.insert(member_of(s), Some(s)),
                current_ops: old(self)@.current_ops.push(StakerOp::PutValidator(s)),
                staking_info: if old(self).model().current.validators.contains_key(member_of(s)) {
                    old(self)@.staking_info
                } else {
                    old(self)@.staking_info.insert(member_of(s), zero_staking_info())
                },
                ..old(self)@
            }),
            r is Err ==> final(self)@ == old(self)@,
    {
        if !s.priority.is_current() {
            return Err(Error::WrongTxType);
        }
        let k = MemberKey { subnet_id: s.subnet_id, node_id: s.node_id };
        let op = StakerOp::PutValidator(s);
        let ghost ops = self.current_ops@;
        let ghost cv = self.current_validators@;
        let ghost below = self.parent.model();
        let known = self.get_current_validator(s.subnet_id, s.node_id).is_ok();
        if !known {
            self.staking_info.insert(k.copied(), StakingInfo::default());
        }
        self.current_validators.insert(k, Some(s));
        self.current_ops.push(op);
        proof {
            assert forall|v: StakersView| #[trigger]
                after_ops(v, self@.current_ops, self@.current_ops.len()).validators == patched(
                    v.validators,
                    self@.current_validators,
                ) by {
                lemma_ops_push(v, ops, op);
                lemma_patched_insert(v.validators, cv, member_of(s), Some(s));
                assert(after_ops(v, old(self)@.current_ops, ops.len()).validators == patched(
                    v.validators,
                    cv,
                ));
            }
            lemma_ops_push(below.current, ops, op);
            assert(after_ops(below.current, ops, ops.len()).validators == patched(
                below.current.validators,
                cv,
            ));
            assert forall|i: int|
                0 <= i < self@.current_ops.len() implies ((#[trigger] self@.current_ops[i]) matches StakerOp::DeleteValidator(
            d) ==> self@.current_validators.contains_key(member_of(d)) && (
            self@.current_validators[member_of(d)] is Some ==> self@.staking_info.contains_key(
                member_of(d),
            ))) by {
                if i < ops.len() {
                    assert(self@.current_ops[i] == ops[i]);
                    assert(old(self)@.current_ops[i] == ops[i]);
                }
            }
            assert(self.model().staking_info =~= old(self).model().staking_info);
            assert(self.model() =~= old(self).model().put_current_validator(s));
        }
        Ok(())
    }

    fn delete_current_validator(&mut self, s: &Staker)
        ensures
            final(self)@ == (DiffView {
                current_validators: old(self)@.current_validators.insert(member_of(*s), None),
                current_ops: old(self)@.current_ops.push(StakerOp::DeleteValidator(*s)),
                ..old(self)@
            }),
    {
        let k = MemberKey { subnet_id: s.subnet_id, node_id: s.node_id };
        let op = StakerOp::DeleteValidator(*s);
        let ghost ops = self.current_ops@;
        let ghost cv = self.current_validators@;
        let ghost below = self.parent.model();
        self.current_validators.insert(k, None);
        self.current_ops.push(op);
        proof {
            assert forall|v: StakersView| #[trigger]
                after_ops(v, self@.current_ops, self@.current_ops.len()).validators == patched(
                    v.validators,
                    self@.current_validators,
                ) by {
                lemma_ops_push(v, ops, op);
                lemma_patched_insert(v.validators, cv, member_of(*s), None);
                assert(after_ops(v, old(self)@.current_ops, ops.len()).validators == patched(
                    v.validators,
                    cv,
                ));
            }
            lemma_ops_push(below.current, ops, op);
            assert forall|i: int|
                0 <= i < self@.current_ops.len() implies ((#[trigger] self@.current_ops[i]) matches StakerOp::DeleteValidator(
            d) ==> self@.current_validators.contains_key(member_of(d)) && (
            self@.current_validators[member_of(d)] is Some ==> self@.staking_info.contains_key(
                member_of(d),
            ))) by {
                if i < ops.len() {
                    assert(self@.current_ops[i] == ops[i]);
                    assert(old(self)@.current_ops[i] == ops[i]);
                }
            }
            assert(self.model().staking_info =~= old(self).model().staking_info.insert(
                member_of(*s),
                zero_staking_info(),
            ));
            assert(self.model() =~= old(self).model().delete_current_validator(*s));
        }
    }

    fn get_staking_info(&self, subnet: Id, node: NodeId) -> (r: Result<StakingInfo>)
        decreases self,
    {
        proof {
            self.parent.model_is_coherent();
        }
        match self.get_current_validator(subnet, node) {
            Ok(_) => {},
            Err(e) => {
                return Err(e);
            },
        }
        let k = MemberKey { subnet_id: subnet, node_id: node };
        match self.staking_info.get(&k) {
            Some(i) => Ok(*i),
            None => match self.parent.get_staking_info(subnet, node) {
                Ok(i) => Ok(i),
                Err(_) => Ok(StakingInfo::default()),
            },
        }
    }

    fn set_staking_info(&mut self, subnet: Id, node: NodeId, info: StakingInfo) -> (r: Result<()>)
        ensures
            r is Ok ==> final(self)@ == (DiffView {
                staking_info: old(self)@.staking_info.insert(member_key(subnet@, node@), info),
                ..old(self)@
            }),
            r is Err ==> final(self)@ == old(self)@,
    {
        match self.get_current_validator(subnet, node) {
            Ok(_) => {},
            Err(e) => {
                return Err(e);
            },
        }
        let k = MemberKey { subnet_id: subnet, node_id: node };
        self.staking_info.insert(k, info);
        assert(self.model().staking_info =~= old(self).model().staking_info.insert(
            member_key(subnet@, node@),
            info,
        ));
        assert(self.model() =~= (ChainView {
            staking_info: old(self).model().staking_info.insert(
                member_key(subnet@, node@),
                info,
            ),
            ..old(self).model()
        }));
        Ok(())
    }

    fn put_current_delegator(&mut self, s: Staker)
        ensures
            final(self)@ == (DiffView {
                current_ops: old(self)@.current_ops.push(StakerOp::PutDelegator(s)),
                ..old(self)@
            }),
    {
        let op = StakerOp::PutDelegator(s);
        let ghost ops = self.current_ops@;
        self.current_ops.push(op);
        proof {
            assert forall|v: StakersView| #[trigger]
                after_ops(v, self@.current_ops, self@.current_ops.len()).validators == patched(
                    v.validators,
                    self@.current_validators,
                ) by {
                lemma_ops_push(v, ops, op);
                assert(after_ops(v, old(self)@.current_ops, ops.len()).validators == patched(
                    v.validators,
                    old(self)@.current_validators,
                ));
            }
            lemma_ops_push(self.parent.model().current, ops, op);
            assert(self.model().staking_info =~= old(self).model().staking_info);
            assert(self.model() =~= old(self).model().put_current_delegator(s));
        }
    }

    fn delete_current_delegator(&mut self, s: &Staker)
        ensures
            final(self)@ == (DiffView {
                current_ops: old(self)@.current_ops.push(StakerOp::DeleteDelegator(*s)),
                ..old(self)@
            }),
    {
        let op = StakerOp::DeleteDelegator(*s);
        let ghost ops = self.current_ops@;
        self.current_ops.push(op);
        proof {
            assert forall|v: StakersView| #[trigger]
                after_ops(v, self@.current_ops, self@.current_ops.len()).validators == patched(
                    v.validators,
                    self@.current_validators,
                ) by {
                lemma_ops_push(v, ops, op);
                assert(after_ops(v, old(self)@.current_ops, ops.len()).validators == patched(
                    v.validators,
                    old(self)@.current_validators,
                ));
            }
            lemma_ops_push(self.parent.model().current, ops, op);
            assert(self.model().staking_info =~= old(self).model().staking_info);
            assert(self.model() =~= old(self).model().delete_current_delegator(*s));
        }
    }

    fn current_stakers(&self) -> (r: Vec<Staker>)
        decreases self,
    {
        self.current_set().to_vec()
    }

    fn put_pending_validator(&mut self, s: Staker) -> (r: Result<()>)
        ensures
            r is Ok ==> final(self)@ == (DiffView {
                pending_ops: old(self)@.pending_ops.push(StakerOp::PutValidator(s)),
                ..old(self)@
            }),
            r is Err ==> final(self)@ == old(self)@,
    {
        if !s.priority.is_pending() {
            return Err(Error::WrongTxType);
        }
        proof {
            lemma_ops_push(self.parent.model().pending, self.pending_ops@, StakerOp::PutValidator(s));
        }
        self.pending_ops.push(StakerOp::PutValidator(s));
        assert(self.model() =~= old(self).model().put_pending_validator(s));
        Ok(())
    }

    fn delete_pending_validator(&mut self, s: &Staker)
        ensures
            final(self)@ == (DiffView {
                pending_ops: old(self)@.pending_ops.push(StakerOp::DeleteValidator(*s)),
                ..old(self)@
            }),
    {
        proof {
            lemma_ops_push(self.parent.model().pending, self.pending_ops@, StakerOp::DeleteValidator(*s));
        }
        self.pending_ops.push(StakerOp::DeleteValidator(*s));
        assert(self.model() =~= old(self).model().delete_pending_validator(*s));
    }

    fn put_pending_delegator(&mut self, s: Staker)
        ensures
            final(self)@ == (DiffView {
                pending_ops: old(self)@.pending_ops.push(StakerOp::PutDelegator(s)),
                ..old(self)@
            }),
    {
        proof {
            lemma_ops_push(self.parent.model().pending, self.pending_ops@, StakerOp::PutDelegator(s));
        }
        self.pending_ops.push(StakerOp::PutDelegator(s));
        assert(self.model() =~= old(self).model().put_pending_delegator(s));
    }

    fn delete_pending_delegator(&mut self, s: &Staker)
        ensures
            final(self)@ == (DiffView {
                pending_ops: old(self)@.pending_ops.push(StakerOp::DeleteDelegator(*s)),
                ..old(self)@
            }),
    {
        proof {
            lemma_ops_push(self.parent.model().pending, self.pending_ops@, StakerOp::DeleteDelegator(*s));
        }
        self.pending_ops.push(StakerOp::DeleteDelegator(*s));
        assert(self.model() =~= old(self).model().delete_pending_delegator(*s));
    }

    fn pending_stakers(&self) -> (r: Vec<Staker>)
        decreases self,
    {
        self.pending_set().to_vec()
    }

    fn get_l1_validator(&self, validation_id: Id) -> (r: Result<L1Validator>)
        decreases self,
    {
        match self.l1_validators.get(&validation_id) {
            Some(v) => Ok(v.dup()),
            None => self.parent.get_l1_validator(validation_id),
        }
    }

    fn put_l1_validator(&mut self, v: L1Validator) -> (r: Result<()>)
        ensures
            final(self)@ == (DiffView {
                l1_validators: old(self)@.l1_validators.insert(v@.validation_id, v@),
                ..old(self)@
            }),
    {
        let ghost vv = v@;
        proof {
            lemma_overlaid_insert(
                self.parent.model().l1_validators,
                self.l1_validators@,
                vv.validation_id,
                vv,
            );
        }
        self.l1_validators.insert(v.validation_id, v);
        assert(self.model() =~= (ChainView {
            l1_validators: old(self).model().l1_validators.insert(vv.validation_id, vv),
            ..old(self).model()
        }));
        Ok(())
    }

    fn weight_of_l1_validators(&self, subnet: Id) -> (r: Result<u64>)
        decreases self,
    {
        let all = self.l1_set();
        match add_weights(&all, &subnet, 0) {
            Some(w) => Ok(w),
            None => Err(Error::Overflow),
        }
    }

    fn active_l1_validators(&self) -> (r: Vec<L1Validator>)
        decreases self,
    {
        proof {
            self.model_is_coherent();
        }
        let all = self.l1_set();
        sorted_active(&all)
    }

    fn subnets(&self) -> (r: Vec<Id>)
        decreases self,
    {
        let mut out = self.parent.subnets();
        append_new(&mut out, &self.added_subnets.items);
        out
    }

    fn add_subnet(&mut self, subnet: Id)
        ensures
            final(self)@ == (DiffView {
                added_subnets: with_new(old(self)@.added_subnets, subnet@),
                ..old(self)@
            }),
    {
        let ghost added = self.added_subnets@;
        let ghost below = self.parent.model().subnets;
        if !contains_id(&self.added_subnets.items, &subnet) {
            self.added_subnets.items.push(subnet);
            assert(self.added_subnets@ =~= added.push(subnet@));
            assert(added.push(subnet@).drop_last() =~= added);
        } else {
            proof {
                lemma_with_all_new_has(below, added, subnet@);
            }
        }
        assert(self.model() =~= (ChainView {
            subnets: with_new(old(self).model().subnets, subnet@),
            ..old(self).model()
        }));
    }

    fn get_subnet_owner(&self, subnet: Id) -> (r: Result<Vec<u8>>)
        decreases self,
    {
        match self.subnet_owners.get(&subnet) {
            Some(o) => Ok(bytes_copy(o.as_slice())),
            None => self.parent.get_subnet_owner(subnet),
        }
    }

    fn set_subnet_owner(&mut self, subnet: Id, owner: Vec<u8>)
        ensures
            final(self)@ == (DiffView {
                subnet_owners: old(self)@.subnet_owners.insert(subnet@, owner@),
                ..old(self)@
            }),
    {
        let ghost ov = owner@;
        proof {
            lemma_overlaid_insert(
                self.parent.model().subnet_owners,
                self.subnet_owners@,
                subnet@,
                ov,
            );
        }
        self.subnet_owners.insert(subnet, owner);
        assert(self.model() =~= (ChainView {
            subnet_owners: old(self).model().subnet_owners.insert(subnet@, ov),
            ..old(self).model()
        }));
    }

    fn get_subnet_manager(&self, subnet: Id) -> (r: Result<Vec<u8>>)
        decreases self,
    {
        match self.subnet_managers.get(&subnet) {
            Some(m) => Ok(bytes_copy(m.as_slice())),
            None => self.parent.get_subnet_manager(subnet),
        }
    }

    fn set_subnet_manager(&mut self, subnet: Id, manager: Vec<u8>)
        ensures
            final(self)@ == (DiffView {
                subnet_managers: old(self)@.subnet_managers.insert(subnet@, manager@),
                ..old(self)@
            }),
    {
        let ghost mv = manager@;
        proof {
            lemma_overlaid_insert(
                self.parent.model().subnet_managers,
                self.subnet_managers@,
                subnet@,
                mv,
            );
        }
        self.subnet_managers.insert(subnet, manager);
        assert(self.model() =~= (ChainView {
            subnet_managers: old(self).model().subnet_managers.insert(subnet@, mv),
            ..old(self).model()
        }));
    }

    fn chains(&self, subnet: Id) -> (r: Vec<Id>)
        decreases self,
    {
        proof {
            self.parent.model_is_coherent();
        }
        let mut out = self.parent.chains(subnet);
        if let Some(added) = self.added_chains.get(&subnet) {
            append_new(&mut out, &added.items);
        }
        out
    }

    fn add_chain(&mut self, subnet: Id, chain: Id)
        ensures
            final(self)@ == (DiffView {
                added_chains: old(self)@.added_chains.insert(
                    subnet@,
                    (if old(self)@.added_chains.contains_key(subnet@) {
                        old(self)@.added_chains[subnet@]
                    } else {
                        Seq::empty()
                    }).push(chain@),
                ),
                ..old(self)@
            }),
    {
        proof {
            self.parent.model_is_coherent();
        }
        let ghost before = self.added_chains@;
        let ghost below = self.parent.model().chains;
        let mut list = match self.added_chains.take(&subnet) {
            Some(l) => l,
            None => {
                let l: List<Id> = List { items: Vec::new() };
                assert(l@ =~= Seq::empty());
                l
            },
        };
        let ghost lv = list@;
        list.items.push(chain);
        assert(list@ =~= lv.push(chain@));
        self.added_chains.insert(subnet, list);
        proof {
            assert(self.added_chains@ =~= before.insert(subnet@, lv.push(chain@)));
            assert(lv.push(chain@).drop_last() =~= lv);
            let was = old(self).model().chains;
            assert(was[subnet@] == with_all_new(below[subnet@], lv));
            assert(with_all_new(below[subnet@], lv.push(chain@)) == with_new(
                was[subnet@],
                chain@,
            ));
            assert(self.model().chains =~= old(self).model().add_chain(subnet@, chain@).chains);
            assert(self.model() =~= old(self).model().add_chain(subnet@, chain@));
        }
    }

    fn get_reward_utxos(&self, tx_id: Id) -> (r: Vec<UtxoBytes>)
        decreases self,
    {
        proof {
            self.parent.model_is_coherent();
        }
        let mut out = self.parent.get_reward_utxos(tx_id);
        if let Some(added) = self.reward_utxos.get(&tx_id) {
            let ghost start = blob_bytes(out@);
            let mut more = copy_blobs(&added.items);
            let ghost mv = more@;
            let ghost ov = out@;
            out.append(&mut more);
            assert(blob_bytes(out@) =~= start + blob_bytes(mv));
        }
        out
    }

    fn add_reward_utxo(&mut self, tx_id: Id, utxo: UtxoBytes)
        ensures
            final(self)@ == (DiffView {
                reward_utxos: old(self)@.reward_utxos.insert(
                    tx_id@,
                    (if old(self)@.reward_utxos.contains_key(tx_id@) {
                        old(self)@.reward_utxos[tx_id@]
                    } else {
                        Seq::empty()
                    }).push(utxo@),
                ),
                ..old(self)@
            }),
    {
        proof {
            self.parent.model_is_coherent();
        }
        let ghost before = self.reward_utxos@;
        let ghost below = self.parent.model().reward_utxos;
        let ghost uv = utxo@;
        let mut list = match self.reward_utxos.take(&tx_id) {
            Some(l) => l,
            None => {
                let l: List<Vec<u8>> = List { items: Vec::new() };
                assert(l@ =~= Seq::empty());
                l
            },
        };
        let ghost lv = list@;
        list.items.push(utxo);
        assert(list@ =~= lv.push(uv));
        self.reward_utxos.insert(tx_id, list);
        proof {
            assert(self.reward_utxos@ =~= before.insert(tx_id@, lv.push(uv)));
            assert(below[tx_id@] + lv.push(uv) =~= (below[tx_id@] + lv).push(uv));
            assert(below[tx_id@] + Seq::<Seq<u8>>::empty() =~= below[tx_id@]);
            assert(self.model().reward_utxos =~= old(self).model().add_reward_utxo(
                tx_id@,
                uv,
            ).reward_utxos);
            assert(self.model() =~= old(self).model().add_reward_utxo(tx_id@, uv));
        }
    }

    fn get_tx(&self, tx_id: Id) -> (r: Result<Vec<u8>>)
        decreases self,
    {
        match self.txs.get(&tx_id) {
            Some(b) => Ok(bytes_copy(b.as_slice())),
            None => self.parent.get_tx(tx_id),
        }
    }

    fn add_tx(&mut self, tx_id: Id, tx_bytes: Vec<u8>)
        ensures
            final(self)@ == (DiffView {
                txs: old(self)@.txs.insert(tx_id@, tx_bytes@),
                ..old(self)@
            }),
    {
        let ghost bv = tx_bytes@;
        proof {
            lemma_overlaid_insert(self.parent.model().txs, self.txs@, tx_id@, bv);
        }
        self.txs.insert(tx_id, tx_bytes);
        assert(self.model() =~= (ChainView {
            txs: old(self).model().txs.insert(tx_id@, bv),
            ..old(self).model()
        }));
    }
}

/// What was renewed after the first `n` changes of current stakers.
spec fn infos_after(infos: Map<Seq<u8>, StakingInfo>, ops: Seq<StakerOp>, n: nat) -> Map<
    Seq<u8>,
    StakingInfo,
>
    decreases n,
{
    if n == 0 {
        infos
    } else {
        let m = infos_after(infos, ops, (n - 1) as nat);
        match ops[n - 1] {
            StakerOp::DeleteValidator(s) => m.insert(member_of(s), zero_staking_info()),
            _ => m,
        }
    }
}

/// What was renewed of the node that `k` is about, where `own` says so of one
/// with a validator.
spec fn renewal(
    infos: Map<Seq<u8>, StakingInfo>,
    own: Map<Seq<u8>, StakingInfo>,
    validators: Map<Seq<u8>, Staker>,
    k: Seq<u8>,
) -> StakingInfo {
    if own.contains_key(k) && validators.contains_key(k) {
        own[k]
    } else {
        infos[k]
    }
}

spec fn renewed(
    infos: Map<Seq<u8>, StakingInfo>,
    own: Map<Seq<u8>, StakingInfo>,
    validators: Map<Seq<u8>, Staker>,
) -> Map<Seq<u8>, StakingInfo> {
    Map::new(|k: Seq<u8>| true, |k: Seq<u8>| renewal(infos, own, validators, k))
}

proof fn lemma_infos_kept(infos: Map<Seq<u8>, StakingInfo>, ops: Seq<StakerOp>, n: nat, k: Seq<u8>)
    requires
        n <= ops.len(),
        forall|i: int|
            0 <= i < n ==> ((#[trigger] ops[i]) matches StakerOp::DeleteValidator(s) ==> member_of(s)
                != k),
    ensures
        infos_after(infos, ops, n)[k] == infos[k],
    decreases n,
{
    if n > 0 {
        lemma_infos_kept(infos, ops, (n - 1) as nat, k);
        assert(ops[n - 1] matches StakerOp::DeleteValidator(s) ==> member_of(s) != k);
    }
}

/// What is renewed once the changes were made is what a layer reads.
proof fn lemma_infos_applied(d: DiffView, start: ChainView, mid: ChainView)
    requires
        d.consistent(),
        mid.is_coherent(),
        mid.current == after_ops(start.current, d.current_ops, d.current_ops.len()),
        mid.staking_info == infos_after(
            start.staking_info,
            d.current_ops,
            d.current_ops.len(),
        ),
    ensures
        renewed(mid.staking_info, d.staking_info, mid.current.validators) == infos_over(
            mid.current.validators,
            d.staking_info,
            start.staking_info,
        ),
{
    let vals = mid.current.validators;
    let a = renewed(mid.staking_info, d.staking_info, vals);
    let b = infos_over(vals, d.staking_info, start.staking_info);
    assert(vals == patched(start.current.validators, d.current_validators));
    assert forall|k: Seq<u8>| #[trigger] a[k] == b[k] by {
        if !vals.contains_key(k) {
            assert(mid.staking_info[k] == zero_staking_info());
        } else if !d.staking_info.contains_key(k) {
            assert forall|i: int| 0 <= i < d.current_ops.len() implies ((
            #[trigger] d.current_ops[i]) matches StakerOp::DeleteValidator(s) ==> member_of(s)
                != k) by {
                if let StakerOp::DeleteValidator(s) = d.current_ops[i] {
                    if member_of(s) == k {
                        assert(d.current_validators.contains_key(k));
                        assert(d.current_validators[k] is Some);
                    }
                }
            }
            lemma_infos_kept(start.staking_info, d.current_ops, d.current_ops.len(), k);
        }
    }
    assert(a =~= b);
}

impl Diff {
    /// Makes the changes of supplies.
    fn apply_supply<C: Chain>(&self, base: &mut C)
        requires
            old(base).wf(),
            keyed_by_id(self@.l1_validators),
        ensures
            final(base).wf(),
            final(base).rest() == old(base).rest(),
            final(base).model() == (ChainView {
                supply: overlaid(old(base).model().supply, self@.supply),
                ..old(base).model()
            }),
    {
        let n: usize = self.supply.len();
        let ghost start = base.model();
        let ghost over = self.supply@;
        let ghost ks = self.supply.keys();
        let ghost f = |k: Seq<u8>| Some(over[k]);
        let mut i: usize = 0;
        proof {
            lemma_merged_start(start.supply, ks, f);
        }
        while i < n
            invariant
                i <= n,
                n == ks.len(),
                ks == self.supply.keys(),
                over == self.supply@,
                keyed_by_id(self@.l1_validators),
                increasing(ks),
                forall|x: int|
                    0 <= x < n ==> over.contains_key(#[trigger] ks[x]) && over[ks[x]]
                        == self.supply.vals()[x],
                f == (|k: Seq<u8>| Some(over[k])),
                base.wf(),
                base.rest() == old(base).rest(),
                base.model() == (ChainView {
                    supply: merged_upto(start.supply, ks, i as int, f),
                    ..start
                }),
            decreases n - i,
        {
            let k = *self.supply.key_at(i);
            proof {
                lemma_merged_step(start.supply, ks, i as int, f);
                assert(over.contains_key(ks[i as int]));
            }
            base.set_current_supply(k, *self.supply.val_at(i));
            i += 1;
        }
        proof {
            lemma_merged_end(start.supply, over, ks, f);
        }
    }

    /// Makes the changes of unspent outputs.
    fn apply_utxos<C: Chain>(&self, base: &mut C)
        requires
            old(base).wf(),
            keyed_by_id(self@.l1_validators),
        ensures
            final(base).wf(),
            final(base).rest() == old(base).rest(),
            final(base).model() == (ChainView {
                utxos: patched(old(base).model().utxos, self@.utxos),
                ..old(base).model()
            }),
    {
        let n: usize = self.utxos.len();
        let ghost start = base.model();
        let ghost over = self.utxos@;
        let ghost ks = self.utxos.keys();
        let ghost f = |k: Seq<u8>| over[k];
        let mut i: usize = 0;
        proof {
            lemma_merged_start(start.utxos, ks, f);
        }
        while i < n
            invariant
                i <= n,
                n == ks.len(),
                ks == self.utxos.keys(),
                over == self.utxos@,
                keyed_by_id(self@.l1_validators),
                increasing(ks),
                forall|x: int|
                    0 <= x < n ==> over.contains_key(#[trigger] ks[x]) && over[ks[x]]
                        == self.utxos.vals()[x],
                f == (|k: Seq<u8>| over[k]),
                base.wf(),
                base.rest() == old(base).rest(),
                base.model() == (ChainView {
                    utxos: merged_upto(start.utxos, ks, i as int, f),
                    ..start
                }),
            decreases n - i,
        {
            let k = *self.utxos.key_at(i);
            proof {
                lemma_merged_step(start.utxos, ks, i as int, f);
                assert(over.contains_key(ks[i as int]));
            }
            match self.utxos.val_at(i) {
                UtxoOp::Add(b) => {
                    base.add_utxo(k, bytes_copy(b.as_slice()));
                },
                UtxoOp::Delete => {
                    base.delete_utxo(k);
                },
            }
            i += 1;
        }
        proof {
            lemma_merged_end(start.utxos, over, ks, f);
        }
    }

    /// Makes the changes of L1 validators.
    fn apply_l1_validators<C: Chain>(&self, base: &mut C)
        requires
            old(base).wf(),
            keyed_by_id(self@.l1_validators),
        ensures
            final(base).wf(),
            final(base).rest() == old(base).rest(),
            final(base).model() == (ChainView {
                l1_validators: overlaid(old(base).model().l1_validators, self@.l1_validators),
                ..old(base).model()
            }),
    {
        let n: usize = self.l1_validators.len();
        let ghost start = base.model();
        let ghost over = self.l1_validators@;
        let ghost ks = self.l1_validators.keys();
        let ghost f = |k: Seq<u8>| Some(over[k]);
        let mut i: usize = 0;
        proof {
            lemma_merged_start(start.l1_validators, ks, f);
        }
        while i < n
            invariant
                i <= n,
                n == ks.len(),
                ks == self.l1_validators.keys(),
                over == self.l1_validators@,
                keyed_by_id(self@.l1_validators),
                increasing(ks),
                forall|x: int|
                    0 <= x < n ==> over.contains_key(#[trigger] ks[x]) && over[ks[x]]
                        == self.l1_validators.vals()[x],
                f == (|k: Seq<u8>| Some(over[k])),
                base.wf(),
                base.rest() == old(base).rest(),
                base.model() == (ChainView {
                    l1_validators: merged_upto(start.l1_validators, ks, i as int, f),
                    ..start
                }),
            decreases n - i,
        {
            let k = *self.l1_validators.key_at(i);
            proof {
                lemma_merged_step(start.l1_validators, ks, i as int, f);
                assert(over.contains_key(ks[i as int]));
            }
            let v = self.l1_validators.val_at(i).dup();
            let _ = base.put_l1_validator(v);
            i += 1;
        }
        proof {
            lemma_merged_end(start.l1_validators, over, ks, f);
        }
    }

    /// Makes the changes of subnet owners.
    fn apply_subnet_owners<C: Chain>(&self, base: &mut C)
        requires
            old(base).wf(),
            keyed_by_id(self@.l1_validators),
        ensures
            final(base).wf(),
            final(base).rest() == old(base).rest(),
            final(base).model() == (ChainView {
                subnet_owners: overlaid(old(base).model().subnet_owners, self@.subnet_owners),
                ..old(base).model()
            }),
    {
        let n: usize = self.subnet_owners.len();
        let ghost start = base.model();
        let ghost over = self.subnet_owners@;
        let ghost ks = self.subnet_owners.keys();
        let ghost f = |k: Seq<u8>| Some(over[k]);
        let mut i: usize = 0;
        proof {
            lemma_merged_start(start.subnet_owners, ks, f);
        }
        while i < n
            invariant
                i <= n,
                n == ks.len(),
                ks == self.subnet_owners.keys(),
                over == self.subnet_owners@,
                keyed_by_id(self@.l1_validators),
                increasing(ks),
                forall|x: int|
                    0 <= x < n ==> over.contains_key(#[trigger] ks[x]) && over[ks[x]]
                        == self.subnet_owners.vals()[x],
                f == (|k: Seq<u8>| Some(over[k])),
                base.wf(),
                base.rest() == old(base).rest(),
                base.model() == (ChainView {
                    subnet_owners: merged_upto(start.subnet_owners, ks, i as int, f),
                    ..start
                }),
            decreases n - i,
        {
            let k = *self.subnet_owners.key_at(i);
            proof {
                lemma_merged_step(start.subnet_owners, ks, i as int, f);
                assert(over.contains_key(ks[i as int]));
            }
            base.set_subnet_owner(k, bytes_copy(self.subnet_owners.val_at(i).as_slice()));
            i += 1;
        }
        proof {
            lemma_merged_end(start.subnet_owners, over, ks, f);
        }
    }

    /// Makes the changes of subnet managers.
    fn apply_subnet_managers<C: Chain>(&self, base: &mut C)
        requires
            old(base).wf(),
            keyed_by_id(self@.l1_validators),
        ensures
            final(base).wf(),
            final(base).rest() == old(base).rest(),
            final(base).model() == (ChainView {
                subnet_managers: overlaid(old(base).model().subnet_managers, self@.subnet_managers),
                ..old(base).model()
            }),
    {
        let n: usize = self.subnet_managers.len();
        let ghost start = base.model();
        let ghost over = self.subnet_managers@;
        let ghost ks = self.subnet_managers.keys();
        let ghost f = |k: Seq<u8>| Some(over[k]);
        let mut i: usize = 0;
        proof {
            lemma_merged_start(start.subnet_managers, ks, f);
        }
        while i < n
            invariant
                i <= n,
                n == ks.len(),
                ks == self.subnet_managers.keys(),
                over == self.subnet_managers@,
                keyed_by_id(self@.l1_validators),
                increasing(ks),
                forall|x: int|
                    0 <= x < n ==> over.contains_key(#[trigger] ks[x]) && over[ks[x]]
                        == self.subnet_managers.vals()[x],
                f == (|k: Seq<u8>| Some(over[k])),
                base.wf(),
                base.rest() == old(base).rest(),
                base.model() == (ChainView {
                    subnet_managers: merged_upto(start.subnet_managers, ks, i as int, f),
                    ..start
                }),
            decreases n - i,
        {
            let k = *self.subnet_managers.key_at(i);
            proof {
                lemma_merged_step(start.subnet_managers, ks, i as int, f);
                assert(over.contains_key(ks[i as int]));
            }
            base.set_subnet_manager(k, bytes_copy(self.subnet_managers.val_at(i).as_slice()));
            i += 1;
        }
        proof {
            lemma_merged_end(start.subnet_managers, over, ks, f);
        }
    }

    /// Stores the transactions.
    fn apply_txs<C: Chain>(&self, base: &mut C)
        requires
            old(base).wf(),
            keyed_by_id(self@.l1_validators),
        ensures
            final(base).wf(),
            final(base).rest() == old(base).rest(),
            final(base).model() == (ChainView {
                txs: overlaid(old(base).model().txs, self@.txs),
                ..old(base).model()
            }),
    {
        let n: usize = self.txs.len();
        let ghost start = base.model();
        let ghost over = self.txs@;
        let ghost ks = self.txs.keys();
        let ghost f = |k: Seq<u8>| Some(over[k]);
        let mut i: usize = 0;
        proof {
            lemma_merged_start(start.txs, ks, f);
        }
        while i < n
            invariant
                i <= n,
                n == ks.len(),
                ks == self.txs.keys(),
                over == self.txs@,
                keyed_by_id(self@.l1_validators),
                increasing(ks),
                forall|x: int|
                    0 <= x < n ==> over.contains_key(#[trigger] ks[x]) && over[ks[x]]
                        == self.txs.vals()[x],
                f == (|k: Seq<u8>| Some(over[k])),
                base.wf(),
                base.rest() == old(base).rest(),
                base.model() == (ChainView {
                    txs: merged_upto(start.txs, ks, i as int, f),
                    ..start
                }),
            decreases n - i,
        {
            let k = *self.txs.key_at(i);
            proof {
                lemma_merged_step(start.txs, ks, i as int, f);
                assert(over.contains_key(ks[i as int]));
            }
            base.add_tx(k, bytes_copy(self.txs.val_at(i).as_slice()));
            i += 1;
        }
        proof {
            lemma_merged_end(start.txs, over, ks, f);
        }
    }

    /// Makes the changes of current stakers.
    fn apply_current<C: Chain>(&self, base: &mut C) -> (r: Result<()>)
        requires
            old(base).wf(),
            self@.consistent(),
        ensures
            final(base).wf(),
            final(base).rest() == old(base).rest(),
            r is Ok,
            final(base).model() == (ChainView {
                current: after_ops(
                    old(base).model().current,
                    self@.current_ops,
                    self@.current_ops.len(),
                ),
                staking_info: infos_after(
                    old(base).model().staking_info,
                    self@.current_ops,
                    self@.current_ops.len(),
                ),
                ..old(base).model()
            }),
    {
        let n: usize = self.current_ops.len();
        let ghost start = base.model();
        let mut i: usize = 0;
        while i < n
            invariant
                i <= n,
                n == self.current_ops@.len(),
                self@.consistent(),
                base.wf(),
                base.rest() == old(base).rest(),
                base.model() == (ChainView {
                    current: after_ops(start.current, self@.current_ops, i as nat),
                    staking_info: infos_after(start.staking_info, self@.current_ops, i as nat),
                    ..start
                }),
            decreases n - i,
        {
            assert(self@.current_ops[i as int] == self.current_ops@[i as int]);
            match &self.current_ops[i] {
                StakerOp::PutValidator(s) => {
                    let _ = base.put_current_validator(*s);
                },
                StakerOp::DeleteValidator(s) => {
                    base.delete_current_validator(s);
                },
                StakerOp::PutDelegator(s) => {
                    base.put_current_delegator(*s);
                },
                StakerOp::DeleteDelegator(s) => {
                    base.delete_current_delegator(s);
                },
            }
            i += 1;
        }
        Ok(())
    }

    /// Says what was renewed of the current validators.
    fn apply_staking_info<C: Chain>(&self, base: &mut C)
        requires
            old(base).wf(),
        ensures
            final(base).wf(),
            final(base).rest() == old(base).rest(),
            final(base).model() == (ChainView {
                staking_info: renewed(
                    old(base).model().staking_info,
                    self@.staking_info,
                    old(base).model().current.validators,
                ),
                ..old(base).model()
            }),
    {
        let n: usize = self.staking_info.len();
        let ghost start = base.model();
        let ghost over = self.staking_info@;
        let ghost ks = self.staking_info.keys();
        let ghost vals = start.current.validators;
        let ghost f = |k: Seq<u8>| Some(renewal(start.staking_info, over, vals, k));
        let mut i: usize = 0;
        proof {
            base.model_is_coherent();
            lemma_merged_start(start.staking_info, ks, f);
        }
        while i < n
            invariant
                i <= n,
                n == ks.len(),
                ks == self.staking_info.keys(),
                over == self.staking_info@,
                vals == start.current.validators,
                increasing(ks),
                forall|k: Seq<u8>| #[trigger] start.staking_info.contains_key(k),
                forall|x: int|
                    0 <= x < n ==> over.contains_key(#[trigger] ks[x]) && over[ks[x]]
                        == self.staking_info.vals()[x],
                f == (|k: Seq<u8>| Some(renewal(start.staking_info, over, vals, k))),
                base.wf(),
                base.rest() == old(base).rest(),
                base.model() == (ChainView {
                    staking_info: merged_upto(start.staking_info, ks, i as int, f),
                    ..start
                }),
            decreases n - i,
        {
            let k = *self.staking_info.key_at(i);
            let ghost now = merged_upto(start.staking_info, ks, i as int, f);
            proof {
                lemma_merged_step(start.staking_info, ks, i as int, f);
                assert(over.contains_key(ks[i as int]));
                assert(start.staking_info.contains_key(ks[i as int]));
                assert(now.insert(ks[i as int], now[ks[i as int]]) =~= now);
            }
            let _ = base.set_staking_info(k.subnet_id, k.node_id, *self.staking_info.val_at(i));
            i += 1;
        }
        proof {
            lemma_merged_end(start.staking_info, over, ks, f);
            assert(merged(start.staking_info, over, f) =~= renewed(
                start.staking_info,
                over,
                vals,
            ));
        }
    }

    /// Makes the changes of pending stakers.
    fn apply_pending<C: Chain>(&self, base: &mut C) -> (r: Result<()>)
        requires
            old(base).wf(),
            self@.consistent(),
        ensures
            final(base).wf(),
            final(base).rest() == old(base).rest(),
            r is Ok,
            final(base).model() == (ChainView {
                pending: after_ops(
                    old(base).model().pending,
                    self@.pending_ops,
                    self@.pending_ops.len(),
                ),
                ..old(base).model()
            }),
    {
        let n: usize = self.pending_ops.len();
        let ghost start = base.model();
        let mut i: usize = 0;
        while i < n
            invariant
                i <= n,
                n == self.pending_ops@.len(),
                self@.consistent(),
                base.wf(),
                base.rest() == old(base).rest(),
                base.model() == (ChainView {
                    pending: after_ops(start.pending, self@.pending_ops, i as nat),
                    ..start
                }),
            decreases n - i,
        {
            assert(self@.pending_ops[i as int] == self.pending_ops@[i as int]);
            match &self.pending_ops[i] {
                StakerOp::PutValidator(s) => {
                    let _ = base.put_pending_validator(*s);
                },
                StakerOp::DeleteValidator(s) => {
                    base.delete_pending_validator(s);
                },
                StakerOp::PutDelegator(s) => {
                    base.put_pending_delegator(*s);
                },
                StakerOp::DeleteDelegator(s) => {
                    base.delete_pending_delegator(s);
                },
            }
            i += 1;
        }
        Ok(())
    }

    /// Adds the subnets.
    fn apply_subnets<C: Chain>(&self, base: &mut C)
        requires
            old(base).wf(),
        ensures
            final(base).wf(),
            final(base).rest() == old(base).rest(),
            final(base).model() == (ChainView {
                subnets: with_all_new(old(base).model().subnets, self@.added_subnets),
                ..old(base).model()
            }),
    {
        let n: usize = self.added_subnets.items.len();
        let ghost start = base.model();
        let ghost av = self@.added_subnets;
        let mut i: usize = 0;
        assert(av.take(0).len() == 0);
        while i < n
            invariant
                i <= n,
                n == self.added_subnets.items@.len(),
                av == self.added_subnets@,
                base.wf(),
                base.rest() == old(base).rest(),
                base.model() == (ChainView {
                    subnets: with_all_new(start.subnets, av.take(i as int)),
                    ..start
                }),
            decreases n - i,
        {
            base.add_subnet(self.added_subnets.items[i]);
            assert(av.take(i + 1).drop_last() =~= av.take(i as int));
            assert(av.take(i + 1).last() == av[i as int]);
            i += 1;
        }
        assert(av.take(n as int) =~= av);
    }

    /// Adds the chains.
    fn apply_chains<C: Chain>(&self, base: &mut C)
        requires
            old(base).wf(),
        ensures
            final(base).wf(),
            final(base).rest() == old(base).rest(),
            final(base).model() == (ChainView {
                chains: self@.over(old(base).model()).chains,
                ..old(base).model()
            }),
    {
        let n: usize = self.added_chains.len();
        let ghost start = base.model();
        let ghost over = self.added_chains@;
        let ghost ks = self.added_chains.keys();
        let ghost f = |k: Seq<u8>| Some(with_all_new(start.chains[k], over[k]));
        let mut i: usize = 0;
        proof {
            base.model_is_coherent();
            lemma_merged_start(start.chains, ks, f);
        }
        while i < n
            invariant
                i <= n,
                n == ks.len(),
                ks == self.added_chains.keys(),
                over == self.added_chains@,
                increasing(ks),
                start.is_coherent(),
                forall|x: int|
                    0 <= x < n ==> over.contains_key(#[trigger] ks[x]) && over[ks[x]]
                        == self.added_chains.vals()[x],
                f == (|k: Seq<u8>| Some(with_all_new(start.chains[k], over[k]))),
                base.wf(),
                base.rest() == old(base).rest(),
                base.model() == (ChainView {
                    chains: merged_upto(start.chains, ks, i as int, f),
                    ..start
                }),
            decreases n - i,
        {
            let k = *self.added_chains.key_at(i);
            proof {
                lemma_merged_step(start.chains, ks, i as int, f);
                assert(over.contains_key(ks[i as int]));
                assert(start.chains.contains_key(ks[i as int]));
            }
            add_chains(base, k, &self.added_chains.val_at(i).items);
            i += 1;
        }
        proof {
            lemma_merged_end(start.chains, over, ks, f);
            assert(merged(start.chains, over, f) =~= self@.over(start).chains);
        }
    }

    /// Adds the rewards.
    fn apply_rewards<C: Chain>(&self, base: &mut C)
        requires
            old(base).wf(),
        ensures
            final(base).wf(),
            final(base).rest() == old(base).rest(),
            final(base).model() == (ChainView {
                reward_utxos: self@.over(old(base).model()).reward_utxos,
                ..old(base).model()
            }),
    {
        let n: usize = self.reward_utxos.len();
        let ghost start = base.model();
        let ghost over = self.reward_utxos@;
        let ghost ks = self.reward_utxos.keys();
        let ghost f = |k: Seq<u8>| Some(start.reward_utxos[k] + over[k]);
        let mut i: usize = 0;
        proof {
            base.model_is_coherent();
            lemma_merged_start(start.reward_utxos, ks, f);
        }
        while i < n
            invariant
                i <= n,
                n == ks.len(),
                ks == self.reward_utxos.keys(),
                over == self.reward_utxos@,
                increasing(ks),
                start.is_coherent(),
                forall|x: int|
                    0 <= x < n ==> over.contains_key(#[trigger] ks[x]) && over[ks[x]]
                        == self.reward_utxos.vals()[x],
                f == (|k: Seq<u8>| Some(start.reward_utxos[k] + over[k])),
                base.wf(),
                base.rest() == old(base).rest(),
                base.model() == (ChainView {
                    reward_utxos: merged_upto(start.reward_utxos, ks, i as int, f),
                    ..start
                }),
            decreases n - i,
        {
            let k = *self.reward_utxos.key_at(i);
            proof {
                lemma_merged_step(start.reward_utxos, ks, i as int, f);
                assert(over.contains_key(ks[i as int]));
                assert(start.reward_utxos.contains_key(ks[i as int]));
            }
            add_rewards(base, k, &self.reward_utxos.val_at(i).items);
            i += 1;
        }
        proof {
            lemma_merged_end(start.reward_utxos, over, ks, f);
            assert(merged(start.reward_utxos, over, f) =~= self@.over(start).reward_utxos);
        }
    }

    /// Makes the changes to `base`.
    pub fn apply<C: Chain>(&self, base: &mut C) -> (r: Result<()>)
        requires
            self.wf(),
            old(base).wf(),
        ensures
            final(base).wf(),
            final(base).rest() == old(base).rest(),
            r is Ok,
            final(base).model() == self@.over(old(base).model()),
    {
        let ghost start = base.model();
        if let Some(t) = self.timestamp {
            base.set_timestamp(t);
        }
        if let Some(s) = self.fee_state {
            base.set_fee_state(s);
        }
        if let Some(e) = self.l1_validator_excess {
            base.set_l1_validator_excess(e);
        }
        if let Some(v) = self.accrued_fees {
            base.set_accrued_fees(v);
        }
        self.apply_supply(base);
        self.apply_utxos(base);
        let ghost before = base.model();
        let _ = self.apply_current(base);
        proof {
            base.model_is_coherent();
            lemma_infos_applied(self@, before, base.model());
        }
        self.apply_staking_info(base);
        let _ = self.apply_pending(base);
        self.apply_l1_validators(base);
        self.apply_subnets(base);
        self.apply_subnet_owners(base);
        self.apply_subnet_managers(base);
        self.apply_chains(base);
        self.apply_rewards(base);
        self.apply_txs(base);
        assert(base.model() =~= self@.over(start));
        Ok(())
    }
}

/// Adds `chains` to the chains of `subnet`.
fn add_chains<C: Chain>(base: &mut C, subnet: Id, chains: &Vec<Id>)
    requires
        old(base).wf(),
    ensures
        final(base).wf(),
        final(base).rest() == old(base).rest(),
        final(base).model() == (ChainView {
            chains: old(base).model().chains.insert(
                subnet@,
                with_all_new(old(base).model().chains[subnet@], id_bytes(chains@)),
            ),
            ..old(base).model()
        }),
{
    let n: usize = chains.len();
    let ghost start = base.model();
    let ghost cv = id_bytes(chains@);
    let mut i: usize = 0;
    proof {
        base.model_is_coherent();
        assert(start.chains.contains_key(subnet@));
        assert(cv.take(0).len() == 0);
        assert(start.chains.insert(subnet@, start.chains[subnet@]) =~= start.chains);
    }
    while i < n
        invariant
            i <= n,
            n == chains@.len(),
            cv == id_bytes(chains@),
            base.wf(),
            base.rest() == old(base).rest(),
            base.model() == (ChainView {
                chains: start.chains.insert(
                    subnet@,
                    with_all_new(start.chains[subnet@], cv.take(i as int)),
                ),
                ..start
            }),
        decreases n - i,
    {
        base.add_chain(subnet, chains[i]);
        proof {
            assert(cv.take(i + 1).drop_last() =~= cv.take(i as int));
            assert(cv.take(i + 1).last() == cv[i as int]);
            let now = with_all_new(start.chains[subnet@], cv.take(i as int));
            let next = with_all_new(start.chains[subnet@], cv.take(i + 1));
            assert(start.chains.insert(subnet@, now).insert(subnet@, next)
                =~= start.chains.insert(subnet@, next));
        }
        i += 1;
    }
    assert(cv.take(n as int) =~= cv);
}

/// Adds `utxos` to what `tx_id` was rewarded with.
fn add_rewards<C: Chain>(base: &mut C, tx_id: Id, utxos: &Vec<Vec<u8>>)
    requires
        old(base).wf(),
    ensures
        final(base).wf(),
        final(base).rest() == old(base).rest(),
        final(base).model() == (ChainView {
            reward_utxos: old(base).model().reward_utxos.insert(
                tx_id@,
                old(base).model().reward_utxos[tx_id@] + blob_bytes(utxos@),
            ),
            ..old(base).model()
        }),
{
    let n: usize = utxos.len();
    let ghost start = base.model();
    let ghost uv = blob_bytes(utxos@);
    let mut i: usize = 0;
    proof {
        base.model_is_coherent();
        assert(start.reward_utxos.contains_key(tx_id@));
        assert(start.reward_utxos[tx_id@] + uv.take(0) =~= start.reward_utxos[tx_id@]);
        assert(start.reward_utxos.insert(tx_id@, start.reward_utxos[tx_id@])
            =~= start.reward_utxos);
    }
    while i < n
        invariant
            i <= n,
            n == utxos@.len(),
            uv == blob_bytes(utxos@),
            base.wf(),
            base.rest() == old(base).rest(),
            base.model() == (ChainView {
                reward_utxos: start.reward_utxos.insert(
                    tx_id@,
                    start.reward_utxos[tx_id@] + uv.take(i as int),
                ),
                ..start
            }),
        decreases n - i,
    {
        base.add_reward_utxo(tx_id, bytes_copy(utxos[i].as_slice()));
        proof {
            let now = start.reward_utxos[tx_id@] + uv.take(i as int);
            let next = start.reward_utxos[tx_id@] + uv.take(i + 1);
            assert(now.push(uv[i as int]) =~= next);
            assert(start.reward_utxos.insert(tx_id@, now).insert(tx_id@, next)
                =~= start.reward_utxos.insert(tx_id@, next));
        }
        i += 1;
    }
    assert(uv.take(n as int) =~= uv);
}

/// Puts behind `out` those of `added` that are not in there already.
fn append_new(out: &mut Vec<Id>, added: &Vec<Id>)
    ensures
        id_bytes(final(out)@) == with_all_new(id_bytes(old(out)@), id_bytes(added@)),
{
    let n: usize = added.len();
    let ghost av = id_bytes(added@);
    let ghost start = id_bytes(out@);
    let mut i: usize = 0;
    assert(av.take(0).len() == 0);
    while i < n
        invariant
            i <= n,
            n == added@.len(),
            av == id_bytes(added@),
            id_bytes(out@) == with_all_new(start, av.take(i as int)),
        decreases n - i,
    {
        let ghost before = id_bytes(out@);
        if !contains_id(out, &added[i]) {
            out.push(added[i]);
            assert(id_bytes(out@) =~= before.push(av[i as int]));
        }
        assert(av.take(i + 1).drop_last() =~= av.take(i as int));
        assert(av.take(i + 1).last() == av[i as int]);
        i += 1;
    }
    assert(av.take(n as int) =~= av);
}

} // verus!
