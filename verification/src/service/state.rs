//! What the service reads.
use vstd::prelude::*;

use crate::codec::be;
use crate::error::{not_found, Result};
use crate::ids::{Id, ShortId};
use crate::state::chain::{blob_bytes, id_bytes, Chain, GasState, UtxoBytes};
use crate::state::l1_validator::L1Validator;
use crate::state::staker::Staker;
use crate::state::stakers::lists;
use crate::state::state::{is_page, State, StateView};

verus! {

/// A state that the service reads.
pub trait ServiceState {
    /// Whether the state is consistent.
    spec fn readable(&self) -> bool;

    /// The stored state.
    spec fn stored(&self) -> StateView;

    /// The chain's time, in Unix seconds.
    fn timestamp(&self) -> (r: u64)
        requires
            self.readable(),
        ensures
            r == self.stored().chain.timestamp,
    ;

    /// The supply of `subnet`.
    fn current_supply(&self, subnet: Id) -> (r: Result<u64>)
        requires
            self.readable(),
        ensures
            r is Ok,
            r->Ok_0 == self.stored().chain.supply[subnet@],
    ;

    /// The gas state.
    fn fee_state(&self) -> (r: GasState)
        requires
            self.readable(),
        ensures
            r == self.stored().chain.fee_state,
    ;

    /// The excess that sets the fees of L1 validators.
    fn l1_validator_excess(&self) -> (r: u64)
        requires
            self.readable(),
        ensures
            r == self.stored().chain.l1_validator_excess,
    ;

    /// The L1 validator `validation_id`.
    fn get_l1_validator(&self, validation_id: Id) -> (r: Result<L1Validator>)
        requires
            self.readable(),
        ensures
            r is Ok <==> self.stored().chain.l1_validators.contains_key(validation_id@),
            r matches Ok(v) ==> v@ == self.stored().chain.l1_validators[validation_id@],
            r matches Err(e) ==> e == not_found(),
    ;

    /// The chains of `subnet`.
    fn chains(&self, subnet: Id) -> (r: Vec<Id>)
        requires
            self.readable(),
        ensures
            id_bytes(r@) == self.stored().chain.chains[subnet@],
    ;

    /// The bytes of the transaction `tx_id`.
    fn get_tx(&self, tx_id: Id) -> (r: Result<Vec<u8>>)
        requires
            self.readable(),
        ensures
            r is Ok <==> self.stored().chain.txs.contains_key(tx_id@),
            r matches Ok(b) ==> b@ == self.stored().chain.txs[tx_id@],
            r matches Err(e) ==> e == not_found(),
    ;

    /// The bytes of the accepted block `id`.
    fn get_block(&self, id: Id) -> (r: Result<Vec<u8>>)
        requires
            self.readable(),
        ensures
            r is Ok <==> self.stored().blocks.contains_key(id@),
            r matches Ok(b) ==> b@ == self.stored().blocks[id@],
            r matches Err(e) ==> e == not_found(),
    ;

    /// The accepted block at `height`.
    fn get_block_id_at_height(&self, height: u64) -> (r: Option<Id>)
        requires
            self.readable(),
        ensures
            r is Some <==> self.stored().block_index.contains_key(be(height as nat, 8)),
            r matches Some(id) ==> id@ == self.stored().block_index[be(height as nat, 8)],
    ;

    /// The outputs that `addr` owns, behind `previous`.
    fn utxo_ids(&self, addr: &ShortId, previous: Id, limit: usize) -> (r: Vec<Id>)
        requires
            self.readable(),
        ensures
            is_page(self.stored().utxo_index, addr@, previous@, limit as nat, id_bytes(r@)),
    ;

    /// The unspent output `id`.
    fn get_utxo(&self, id: Id) -> (r: Result<UtxoBytes>)
        requires
            self.readable(),
        ensures
            r is Ok <==> self.stored().chain.utxos.contains_key(id@),
            r matches Ok(b) ==> b@ == self.stored().chain.utxos[id@],
            r matches Err(e) ==> e == not_found(),
    ;

    /// The subnets, in the order in which they were created.
    fn subnets(&self) -> (r: Vec<Id>)
        requires
            self.readable(),
        ensures
            id_bytes(r@) == self.stored().chain.subnets,
    ;

    /// The owner of `subnet`.
    fn get_subnet_owner(&self, subnet: Id) -> (r: Result<Vec<u8>>)
        requires
            self.readable(),
        ensures
            r is Ok <==> self.stored().chain.subnet_owners.contains_key(subnet@),
            r matches Ok(b) ==> b@ == self.stored().chain.subnet_owners[subnet@],
            r matches Err(e) ==> e == not_found(),
    ;

    /// The manager of `subnet`.
    fn get_subnet_manager(&self, subnet: Id) -> (r: Result<Vec<u8>>)
        requires
            self.readable(),
        ensures
            r is Ok <==> self.stored().chain.subnet_managers.contains_key(subnet@),
            r matches Ok(b) ==> b@ == self.stored().chain.subnet_managers[subnet@],
            r matches Err(e) ==> e == not_found(),
    ;

    /// The outputs that the staker of `tx_id` was rewarded with.
    fn get_reward_utxos(&self, tx_id: Id) -> (r: Vec<UtxoBytes>)
        requires
            self.readable(),
        ensures
            blob_bytes(r@) == self.stored().chain.reward_utxos[tx_id@],
    ;

    /// The current stakers, in order.
    fn current_stakers(&self) -> (r: Vec<Staker>)
        requires
            self.readable(),
        ensures
            lists(self.stored().chain.current.set, r@),
    ;

    /// The pending stakers, in order.
    fn pending_stakers(&self) -> (r: Vec<Staker>)
        requires
            self.readable(),
        ensures
            lists(self.stored().chain.pending.set, r@),
    ;
}

impl ServiceState for State {
    open spec fn readable(&self) -> bool {
        self.wf()
    }

    open spec fn stored(&self) -> StateView {
        self@
    }

    fn timestamp(&self) -> (r: u64) {
        Chain::timestamp(self)
    }

    fn current_supply(&self, subnet: Id) -> (r: Result<u64>) {
        Chain::current_supply(self, subnet)
    }

    fn fee_state(&self) -> (r: GasState) {
        Chain::fee_state(self)
    }

    fn l1_validator_excess(&self) -> (r: u64) {
        Chain::l1_validator_excess(self)
    }

    fn get_l1_validator(&self, validation_id: Id) -> (r: Result<L1Validator>) {
        Chain::get_l1_validator(self, validation_id)
    }

    fn chains(&self, subnet: Id) -> (r: Vec<Id>) {
        Chain::chains(self, subnet)
    }

    fn get_tx(&self, tx_id: Id) -> (r: Result<Vec<u8>>) {
        Chain::get_tx(self, tx_id)
    }

    fn get_block(&self, id: Id) -> (r: Result<Vec<u8>>) {
        State::get_block(self, id)
    }

    fn get_block_id_at_height(&self, height: u64) -> (r: Option<Id>) {
        State::get_block_id_at_height(self, height)
    }

    fn utxo_ids(&self, addr: &ShortId, previous: Id, limit: usize) -> (r: Vec<Id>) {
        State::utxo_ids(self, addr, previous, limit)
    }

    fn get_utxo(&self, id: Id) -> (r: Result<UtxoBytes>) {
        Chain::get_utxo(self, id)
    }

    fn subnets(&self) -> (r: Vec<Id>) {
        Chain::subnets(self)
    }

    fn get_subnet_owner(&self, subnet: Id) -> (r: Result<Vec<u8>>) {
        Chain::get_subnet_owner(self, subnet)
    }

    fn get_subnet_manager(&self, subnet: Id) -> (r: Result<Vec<u8>>) {
        Chain::get_subnet_manager(self, subnet)
    }

    fn get_reward_utxos(&self, tx_id: Id) -> (r: Vec<UtxoBytes>) {
        Chain::get_reward_utxos(self, tx_id)
    }

    fn current_stakers(&self) -> (r: Vec<Staker>) {
        Chain::current_stakers(self)
    }

    fn pending_stakers(&self) -> (r: Vec<Staker>) {
        Chain::pending_stakers(self)
    }
}

} // verus!
