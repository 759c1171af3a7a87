//! The state of the chain as blocks read and change it.
use vstd::prelude::*;

use crate::collections::ordmap::increasing;
use crate::error::{not_found, Error, Result};
use crate::ids::{Id, NodeId};
use crate::state::diff::Parent;
use crate::state::l1_set::{keyed_by_id, subnet_weight};
use crate::state::l1_validator::{l1_order_key, L1Validator, L1View};
use crate::state::metadata_validator::{zero_staking_info, StakingInfo};
use crate::state::staker::{member_key, Staker};
use crate::state::stakers::{lists, member_of, StakersView};

verus! {

/// The bytes of an unspent output.
pub type UtxoBytes = Vec<u8>;

/// The gas that the chain has left, and the excess that sets its price.
#[derive(Clone, Copy, Debug, PartialEq, Eq, Structural)]
pub struct GasState {
    /// The gas that is left.
    pub capacity: u64,
    /// The excess that sets the price.
    pub excess: u64,
}

/// A gas state in which nothing was used.
pub open spec fn zero_gas() -> GasState {
    GasState { capacity: 0, excess: 0 }
}

/// The map that has `d` wherever `m` has nothing.
pub open spec fn total<W>(m: Map<Seq<u8>, W>, d: W) -> Map<Seq<u8>, W> {
    Map::new(
        |k: Seq<u8>| true,
        |k: Seq<u8>|
            if m.contains_key(k) {
                m[k]
            } else {
                d
            },
    )
}

/// `x` at the end of `s`, unless it is in there already.
pub open spec fn with_new(s: Seq<Seq<u8>>, x: Seq<u8>) -> Seq<Seq<u8>> {
    if s.contains(x) {
        s
    } else {
        s.push(x)
    }
}

/// The bytes of each id.
pub open spec fn id_bytes(v: Seq<Id>) -> Seq<Seq<u8>> {
    v.map_values(|x: Id| x@)
}

/// What each byte string holds.
pub open spec fn blob_bytes(v: Seq<Vec<u8>>) -> Seq<Seq<u8>> {
    v.map_values(|x: Vec<u8>| x@)
}

/// What each L1 validator holds.
pub open spec fn l1_views(v: Seq<L1Validator>) -> Seq<L1View> {
    v.map_values(|x: L1Validator| x@)
}

/// `list` holds the active validators of `m`, each once, in the order in which
/// they are charged.
pub open spec fn lists_active(m: Map<Seq<u8>, L1View>, list: Seq<L1View>) -> bool {
    &&& increasing(list.map_values(|v: L1View| l1_order_key(v)))
    &&& forall|i: int|
        0 <= i < list.len() ==> m.contains_key((#[trigger] list[i]).validation_id)
            && m[list[i].validation_id] == list[i] && list[i].active()
    &&& forall|k: Seq<u8>| #[trigger]
        m.contains_key(k) && m[k].active() ==> exists|i: int|
            0 <= i < list.len() && #[trigger] list[i] == m[k]
}

/// The state of the chain.
#[verifier::ext_equal]
pub struct ChainView {
    /// The chain's time, in Unix seconds.
    pub timestamp: u64,
    /// The gas state.
    pub fee_state: GasState,
    /// The excess that sets the fees of L1 validators.
    pub l1_validator_excess: u64,
    /// The fees that each L1 validator has been charged so far.
    pub accrued_fees: u64,
    /// The supply of every subnet.
    pub supply: Map<Seq<u8>, u64>,
    /// The unspent outputs.
    pub utxos: Map<Seq<u8>, Seq<u8>>,
    /// The current stakers.
    pub current: StakersView,
    /// The pending stakers.
    pub pending: StakersView,
    /// What renewals change of every current validator: nothing where there is
    /// none.
    pub staking_info: Map<Seq<u8>, StakingInfo>,
    /// The L1 validators.
    pub l1_validators: Map<Seq<u8>, L1View>,
    /// The subnets, in the order in which they were created.
    pub subnets: Seq<Seq<u8>>,
    /// The owners of subnets.
    pub subnet_owners: Map<Seq<u8>, Seq<u8>>,
    /// The managers of subnets.
    pub subnet_managers: Map<Seq<u8>, Seq<u8>>,
    /// The chains of every subnet, in the order in which they were created.
    pub chains: Map<Seq<u8>, Seq<Seq<u8>>>,
    /// The outputs that every transaction's staker was rewarded with.
    pub reward_utxos: Map<Seq<u8>, Seq<Seq<u8>>>,
    /// The transactions that were accepted.
    pub txs: Map<Seq<u8>, Seq<u8>>,
}

impl ChainView {
    /// A state in which nothing happened.
    pub open spec fn empty() -> ChainView {
        ChainView {
            timestamp: 0,
            fee_state: zero_gas(),
            l1_validator_excess: 0,
            accrued_fees: 0,
            supply: total(Map::empty(), 0),
            utxos: Map::empty(),
            current: StakersView::empty(),
            pending: StakersView::empty(),
            staking_info: total(Map::empty(), zero_staking_info()),
            l1_validators: Map::empty(),
            subnets: Seq::empty(),
            subnet_owners: Map::empty(),
            subnet_managers: Map::empty(),
            chains: total(Map::empty(), Seq::empty()),
            reward_utxos: total(Map::empty(), Seq::empty()),
            txs: Map::empty(),
        }
    }

    /// Every subnet has a supply and a list of chains, and every transaction a
    /// list of rewards; there are finitely many L1 validators, which stand under
    /// their ids, and nothing is renewed of a node without a validator.
    pub open spec fn is_coherent(self) -> bool {
        &&& self.l1_validators.dom().finite()
        &&& keyed_by_id(self.l1_validators)
        &&& forall|k: Seq<u8>| #[trigger] self.supply.contains_key(k)
        &&& forall|k: Seq<u8>| #[trigger] self.chains.contains_key(k)
        &&& forall|k: Seq<u8>| #[trigger] self.reward_utxos.contains_key(k)
        &&& forall|k: Seq<u8>| #[trigger] self.staking_info.contains_key(k)
        &&& forall|k: Seq<u8>|
            !self.current.validators.contains_key(k) ==> #[trigger] self.staking_info[k]
                == zero_staking_info()
    }

    /// With the current validator `s`.
    pub open spec fn put_current_validator(self, s: Staker) -> ChainView {
        ChainView { current: self.current.put_validator(s), ..self }
    }

    /// Without the current validator `s`, and what was renewed of it.
    pub open spec fn delete_current_validator(self, s: Staker) -> ChainView {
        ChainView {
            current: self.current.delete_validator(s),
            staking_info: self.staking_info.insert(member_of(s), zero_staking_info()),
            ..self
        }
    }

    /// With the current delegator `s`.
    pub open spec fn put_current_delegator(self, s: Staker) -> ChainView {
        ChainView { current: self.current.put_delegator(s), ..self }
    }

    /// Without the current delegator `s`.
    pub open spec fn delete_current_delegator(self, s: Staker) -> ChainView {
        ChainView { current: self.current.delete_delegator(s), ..self }
    }

    /// With the pending validator `s`.
    pub open spec fn put_pending_validator(self, s: Staker) -> ChainView {
        ChainView { pending: self.pending.put_validator(s), ..self }
    }

    /// Without the pending validator `s`.
    pub open spec fn delete_pending_validator(self, s: Staker) -> ChainView {
        ChainView { pending: self.pending.delete_validator(s), ..self }
    }

    /// With the pending delegator `s`.
    pub open spec fn put_pending_delegator(self, s: Staker) -> ChainView {
        ChainView { pending: self.pending.put_delegator(s), ..self }
    }

    /// Without the pending delegator `s`.
    pub open spec fn delete_pending_delegator(self, s: Staker) -> ChainView {
        ChainView { pending: self.pending.delete_delegator(s), ..self }
    }

    /// With `chain` among the chains of `subnet`.
    pub open spec fn add_chain(self, subnet: Seq<u8>, chain: Seq<u8>) -> ChainView {
        ChainView { chains: self.chains.insert(subnet, with_new(self.chains[subnet], chain)), ..self }
    }

    /// With one more output among those that `tx_id` was rewarded with.
    pub open spec fn add_reward_utxo(self, tx_id: Seq<u8>, utxo: Seq<u8>) -> ChainView {
        ChainView {
            reward_utxos: self.reward_utxos.insert(tx_id, self.reward_utxos[tx_id].push(utxo)),
            ..self
        }
    }
}

/// What blocks read of the state and change in it. The stored state has it,
/// and so has every layer of changes on top.
pub trait Chain: Sized {
    /// Whether the state is consistent.
    spec fn wf(&self) -> bool;

    /// What there is besides the state.
    type Rest;

    /// What there is besides the state. No change of the state changes it.
    spec fn rest(&self) -> Self::Rest;

    /// The state.
    spec fn model(&self) -> ChainView;

    /// The state is coherent.
    proof fn model_is_coherent(&self)
        requires
            self.wf(),
        ensures
            self.model().is_coherent(),
    ;

    /// The chain's time.
    fn timestamp(&self) -> (r: u64)
        requires
            self.wf(),
        ensures
            r == self.model().timestamp,
    ;

    /// Sets the chain's time.
    fn set_timestamp(&mut self, t: u64)
        requires
            old(self).wf(),
        ensures
            final(self).wf(),
            final(self).rest() == old(self).rest(),
            final(self).model() == (ChainView { timestamp: t, ..old(self).model() }),
    ;

    /// The supply of `subnet`.
    fn current_supply(&self, subnet: Id) -> (r: Result<u64>)
        requires
            self.wf(),
        ensures
            r is Ok,
            r->Ok_0 == self.model().supply[subnet@],
    ;

    /// Sets the supply of `subnet`.
    fn set_current_supply(&mut self, subnet: Id, supply: u64)
        requires
            old(self).wf(),
        ensures
            final(self).wf(),
            final(self).rest() == old(self).rest(),
            final(self).model() == (ChainView {
                supply: old(self).model().supply.insert(subnet@, supply),
                ..old(self).model()
            }),
    ;

    /// The gas state.
    fn fee_state(&self) -> (r: GasState)
        requires
            self.wf(),
        ensures
            r == self.model().fee_state,
    ;

    /// Sets the gas state.
    fn set_fee_state(&mut self, s: GasState)
        requires
            old(self).wf(),
        ensures
            final(self).wf(),
            final(self).rest() == old(self).rest(),
            final(self).model() == (ChainView { fee_state: s, ..old(self).model() }),
    ;

    /// The excess that sets the fees of L1 validators.
    fn l1_validator_excess(&self) -> (r: u64)
        requires
            self.wf(),
        ensures
            r == self.model().l1_validator_excess,
    ;

    /// Sets the excess that sets the fees of L1 validators.
    fn set_l1_validator_excess(&mut self, excess: u64)
        requires
            old(self).wf(),
        ensures
            final(self).wf(),
            final(self).rest() == old(self).rest(),
            final(self).model() == (ChainView { l1_validator_excess: excess, ..old(self).model() }),
    ;

    /// The fees that each L1 validator has been charged so far.
    fn accrued_fees(&self) -> (r: u64)
        requires
            self.wf(),
        ensures
            r == self.model().accrued_fees,
    ;

    /// Sets the fees that each L1 validator has been charged so far.
    fn set_accrued_fees(&mut self, v: u64)
        requires
            old(self).wf(),
        ensures
            final(self).wf(),
            final(self).rest() == old(self).rest(),
            final(self).model() == (ChainView { accrued_fees: v, ..old(self).model() }),
    ;

    /// The unspent output `id`.
    fn get_utxo(&self, id: Id) -> (r: Result<UtxoBytes>)
        requires
            self.wf(),
        ensures
            r is Ok <==> self.model().utxos.contains_key(id@),
            r matches Ok(b) ==> b@ == self.model().utxos[id@],
            r matches Err(e) ==> e == not_found(),
    ;

    /// Adds an unspent output.
    fn add_utxo(&mut self, id: Id, utxo: UtxoBytes)
        requires
            old(self).wf(),
        ensures
            final(self).wf(),
            final(self).rest() == old(self).rest(),
            final(self).model() == (ChainView {
                utxos: old(self).model().utxos.insert(id@, utxo@),
                ..old(self).model()
            }),
    ;

    /// Removes an unspent output.
    fn delete_utxo(&mut self, id: Id)
        requires
            old(self).wf(),
        ensures
            final(self).wf(),
            final(self).rest() == old(self).rest(),
            final(self).model() == (ChainView {
                utxos: old(self).model().utxos.remove(id@),
                ..old(self).model()
            }),
    ;

    /// The current validator of `subnet` on `node`.
    fn get_current_validator(&self, subnet: Id, node: NodeId) -> (r: Result<Staker>)
        requires
            self.wf(),
        ensures
            r is Ok <==> self.model().current.validators.contains_key(member_key(subnet@, node@)),
            r matches Ok(s) ==> s == self.model().current.validators[member_key(subnet@, node@)],
            r matches Err(e) ==> e == not_found(),
    ;

    /// Adds a current validator, in place of the one that its node had before.
    /// A staker of another group is refused.
    fn put_current_validator(&mut self, s: Staker) -> (r: Result<()>)
        requires
            old(self).wf(),
        ensures
            final(self).wf(),
            final(self).rest() == old(self).rest(),
            r is Ok <==> s.priority.current(),
            r is Ok ==> final(self).model() == old(self).model().put_current_validator(s),
            r matches Err(e) ==> e == Error::WrongTxType && final(self).model()
                == old(self).model(),
    ;

    /// Removes a current validator.
    fn delete_current_validator(&mut self, s: &Staker)
        requires
            old(self).wf(),
        ensures
            final(self).wf(),
            final(self).rest() == old(self).rest(),
            final(self).model() == old(self).model().delete_current_validator(*s),
    ;

    /// Adds a current delegator.
    fn put_current_delegator(&mut self, s: Staker)
        requires
            old(self).wf(),
        ensures
            final(self).wf(),
            final(self).rest() == old(self).rest(),
            final(self).model() == old(self).model().put_current_delegator(s),
    ;

    /// Removes a current delegator.
    fn delete_current_delegator(&mut self, s: &Staker)
        requires
            old(self).wf(),
        ensures
            final(self).wf(),
            final(self).rest() == old(self).rest(),
            final(self).model() == old(self).model().delete_current_delegator(*s),
    ;

    /// The current stakers, in order.
    fn current_stakers(&self) -> (r: Vec<Staker>)
        requires
            self.wf(),
        ensures
            lists(self.model().current.set, r@),
    ;

    /// What renewals change of the current validator of `subnet` on `node`.
    fn get_staking_info(&self, subnet: Id, node: NodeId) -> (r: Result<StakingInfo>)
        requires
            self.wf(),
        ensures
            r is Ok <==> self.model().current.validators.contains_key(member_key(subnet@, node@)),
            r matches Ok(i) ==> i == self.model().staking_info[member_key(subnet@, node@)],
            r matches Err(e) ==> e == not_found(),
    ;

    /// Sets what renewals change of the current validator of `subnet` on
    /// `node`.
    fn set_staking_info(&mut self, subnet: Id, node: NodeId, info: StakingInfo) -> (r: Result<()>)
        requires
            old(self).wf(),
        ensures
            final(self).wf(),
            final(self).rest() == old(self).rest(),
            r is Ok <==> old(self).model().current.validators.contains_key(
                member_key(subnet@, node@),
            ),
            r is Ok ==> final(self).model() == (ChainView {
                staking_info: old(self).model().staking_info.insert(
                    member_key(subnet@, node@),
                    info,
                ),
                ..old(self).model()
            }),
            r matches Err(e) ==> e == not_found() && final(self).model() == old(self).model(),
    ;

    /// Adds a pending validator, in place of the one that its node had before.
    /// A staker of another group is refused.
    fn put_pending_validator(&mut self, s: Staker) -> (r: Result<()>)
        requires
            old(self).wf(),
        ensures
            final(self).wf(),
            final(self).rest() == old(self).rest(),
            r is Ok <==> !s.priority.current(),
            r is Ok ==> final(self).model() == old(self).model().put_pending_validator(s),
            r matches Err(e) ==> e == Error::WrongTxType && final(self).model()
                == old(self).model(),
    ;

    /// Removes a pending validator.
    fn delete_pending_validator(&mut self, s: &Staker)
        requires
            old(self).wf(),
        ensures
            final(self).wf(),
            final(self).rest() == old(self).rest(),
            final(self).model() == old(self).model().delete_pending_validator(*s),
    ;

    /// Adds a pending delegator.
    fn put_pending_delegator(&mut self, s: Staker)
        requires
            old(self).wf(),
        ensures
            final(self).wf(),
            final(self).rest() == old(self).rest(),
            final(self).model() == old(self).model().put_pending_delegator(s),
    ;

    /// Removes a pending delegator.
    fn delete_pending_delegator(&mut self, s: &Staker)
        requires
            old(self).wf(),
        ensures
            final(self).wf(),
            final(self).rest() == old(self).rest(),
            final(self).model() == old(self).model().delete_pending_delegator(*s),
    ;

    /// The pending stakers, in order.
    fn pending_stakers(&self) -> (r: Vec<Staker>)
        requires
            self.wf(),
        ensures
            lists(self.model().pending.set, r@),
    ;

    /// The L1 validator `validation_id`.
    fn get_l1_validator(&self, validation_id: Id) -> (r: Result<L1Validator>)
        requires
            self.wf(),
        ensures
            r is Ok <==> self.model().l1_validators.contains_key(validation_id@),
            r matches Ok(v) ==> v@ == self.model().l1_validators[validation_id@],
            r matches Err(e) ==> e == not_found(),
    ;

    /// Adds an L1 validator, in place of the one with the same id.
    fn put_l1_validator(&mut self, v: L1Validator) -> (r: Result<()>)
        requires
            old(self).wf(),
        ensures
            final(self).wf(),
            final(self).rest() == old(self).rest(),
            r is Ok,
            final(self).model() == (ChainView {
                l1_validators: old(self).model().l1_validators.insert(v@.validation_id, v@),
                ..old(self).model()
            }),
    ;

    /// The weight that the L1 validators of `subnet` add up to.
    fn weight_of_l1_validators(&self, subnet: Id) -> (r: Result<u64>)
        requires
            self.wf(),
        ensures
            r is Ok <==> subnet_weight(self.model().l1_validators, subnet@) <= u64::MAX,
            r matches Ok(w) ==> w == subnet_weight(self.model().l1_validators, subnet@),
            r matches Err(e) ==> e == Error::Overflow,
    ;

    /// The active L1 validators, in the order in which they are charged.
    fn active_l1_validators(&self) -> (r: Vec<L1Validator>)
        requires
            self.wf(),
        ensures
            lists_active(self.model().l1_validators, l1_views(r@)),
    ;

    /// The subnets, in the order in which they were created.
    fn subnets(&self) -> (r: Vec<Id>)
        requires
            self.wf(),
        ensures
            id_bytes(r@) == self.model().subnets,
    ;

    /// Adds a subnet.
    fn add_subnet(&mut self, subnet: Id)
        requires
            old(self).wf(),
        ensures
            final(self).wf(),
            final(self).rest() == old(self).rest(),
            final(self).model() == (ChainView {
                subnets: with_new(old(self).model().subnets, subnet@),
                ..old(self).model()
            }),
    ;

    /// The owner of `subnet`.
    fn get_subnet_owner(&self, subnet: Id) -> (r: Result<Vec<u8>>)
        requires
            self.wf(),
        ensures
            r is Ok <==> self.model().subnet_owners.contains_key(subnet@),
            r matches Ok(b) ==> b@ == self.model().subnet_owners[subnet@],
            r matches Err(e) ==> e == not_found(),
    ;

    /// Sets the owner of `subnet`.
    fn set_subnet_owner(&mut self, subnet: Id, owner: Vec<u8>)
        requires
            old(self).wf(),
        ensures
            final(self).wf(),
            final(self).rest() == old(self).rest(),
            final(self).model() == (ChainView {
                subnet_owners: old(self).model().subnet_owners.insert(subnet@, owner@),
                ..old(self).model()
            }),
    ;

    /// The manager of `subnet`.
    fn get_subnet_manager(&self, subnet: Id) -> (r: Result<Vec<u8>>)
        requires
            self.wf(),
        ensures
            r is Ok <==> self.model().subnet_managers.contains_key(subnet@),
            r matches Ok(b) ==> b@ == self.model().subnet_managers[subnet@],
            r matches Err(e) ==> e == not_found(),
    ;

    /// Sets the manager of `subnet`.
    fn set_subnet_manager(&mut self, subnet: Id, manager: Vec<u8>)
        requires
            old(self).wf(),
        ensures
            final(self).wf(),
            final(self).rest() == old(self).rest(),
            final(self).model() == (ChainView {
                subnet_managers: old(self).model().subnet_managers.insert(subnet@, manager@),
                ..old(self).model()
            }),
    ;

    /// The chains of `subnet`, in the order in which they were created.
    fn chains(&self, subnet: Id) -> (r: Vec<Id>)
        requires
            self.wf(),
        ensures
            id_bytes(r@) == self.model().chains[subnet@],
    ;

    /// Adds a chain to `subnet`.
    fn add_chain(&mut self, subnet: Id, chain: Id)
        requires
            old(self).wf(),
        ensures
            final(self).wf(),
            final(self).rest() == old(self).rest(),
            final(self).model() == old(self).model().add_chain(subnet@, chain@),
    ;

    /// The outputs that the staker of `tx_id` was rewarded with.
    fn get_reward_utxos(&self, tx_id: Id) -> (r: Vec<UtxoBytes>)
        requires
            self.wf(),
        ensures
            blob_bytes(r@) == self.model().reward_utxos[tx_id@],
    ;

    /// Adds an output to those that the staker of `tx_id` was rewarded with.
    fn add_reward_utxo(&mut self, tx_id: Id, utxo: UtxoBytes)
        requires
            old(self).wf(),
        ensures
            final(self).wf(),
            final(self).rest() == old(self).rest(),
            final(self).model() == old(self).model().add_reward_utxo(tx_id@, utxo@),
    ;

    /// The bytes of the transaction `tx_id`.
    fn get_tx(&self, tx_id: Id) -> (r: Result<Vec<u8>>)
        requires
            self.wf(),
        ensures
            r is Ok <==> self.model().txs.contains_key(tx_id@),
            r matches Ok(b) ==> b@ == self.model().txs[tx_id@],
            r matches Err(e) ==> e == not_found(),
    ;

    /// Stores the bytes of a transaction.
    fn add_tx(&mut self, tx_id: Id, tx_bytes: Vec<u8>)
        requires
            old(self).wf(),
        ensures
            final(self).wf(),
            final(self).rest() == old(self).rest(),
            final(self).model() == (ChainView {
                txs: old(self).model().txs.insert(tx_id@, tx_bytes@),
                ..old(self).model()
            }),
    ;
}

/// A value set in a map that is total is set in the total map.
pub proof fn lemma_total_insert<W>(m: Map<Seq<u8>, W>, d: W, k: Seq<u8>, v: W)
    ensures
        total(m.insert(k, v), d) == total(m, d).insert(k, v),
{
    assert(total(m.insert(k, v), d) =~= total(m, d).insert(k, v));
}

/// Finds the state after a block.
pub trait Versions {
    /// Whether what is found is consistent.
    spec fn versions_wf(&self) -> bool;

    /// The state after `block_id`, where it is known.
    spec fn state_at(&self, block_id: Seq<u8>) -> Option<Parent>;

    /// The state after `block_id`, where it is known.
    fn get_state(&self, block_id: Id) -> (r: Option<Parent>)
        requires
            self.versions_wf(),
        ensures
            r == self.state_at(block_id@),
            r matches Some(p) ==> p.wf(),
    ;
}

} // verus!
