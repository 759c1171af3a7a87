//! Transactions that change subnets.
use vstd::prelude::*;

use crate::codec::{lemma_concat, CodecError, Reader};
use crate::collections::ordmap::Dup;
use crate::ids::{Id, NodeId};
use crate::txs::components::{Auth, AuthView, BaseTx, BaseTxView, Owner, OwnerView};
use crate::txs::validator::{Validator, ValidatorView};
use crate::wire::{Read, Wire};

verus! {

/// Asks for a validator of a subnet whose owner chooses them.
#[derive(Debug, PartialEq, Eq)]
pub struct AddSubnetValidatorTx {
    /// What most transactions have in common.
    pub base: BaseTx,
    /// The validator.
    pub validator: Validator,
    /// The subnet.
    pub subnet: Id,
    /// The authorization of the subnet.
    pub subnet_auth: Auth,
}

/// What an [`AddSubnetValidatorTx`] holds.
#[verifier::ext_equal]
pub struct AddSubnetValidatorTxView {
    /// What most transactions have in common.
    pub base: BaseTxView,
    /// The validator.
    pub validator: ValidatorView,
    /// The subnet.
    pub subnet: Seq<u8>,
    /// The authorization of the subnet.
    pub subnet_auth: AuthView,
}

impl View for AddSubnetValidatorTx {
    type V = AddSubnetValidatorTxView;

    open spec fn view(&self) -> AddSubnetValidatorTxView {
        AddSubnetValidatorTxView {
            base: self.base@,
            validator: self.validator@,
            subnet: self.subnet@,
            subnet_auth: self.subnet_auth@,
        }
    }
}

impl Dup for AddSubnetValidatorTx {
    fn dup(&self) -> (r: AddSubnetValidatorTx) {
        AddSubnetValidatorTx {
            base: self.base.dup(),
            validator: self.validator.dup(),
            subnet: self.subnet.dup(),
            subnet_auth: self.subnet_auth.dup(),
        }
    }
}

/// Whether every length of a [`AddSubnetValidatorTx`] fits its field.
#[verifier::opaque]
pub open spec fn add_subnet_validator_tx_fits(v: AddSubnetValidatorTxView) -> bool {
    &&& BaseTx::fits(v.base)
    &&& Validator::fits(v.validator)
    &&& Id::fits(v.subnet)
    &&& Auth::fits(v.subnet_auth)
}

/// The fields of a [`AddSubnetValidatorTx`], in the order in which they are written.
#[verifier::opaque]
pub open spec fn add_subnet_validator_tx_ser(v: AddSubnetValidatorTxView) -> Seq<u8> {
    BaseTx::ser(v.base) + (Validator::ser(v.validator) + (Id::ser(v.subnet) + (Auth::ser(v.subnet_auth))))
}

/// The fields of a [`AddSubnetValidatorTx`] at the start of `s`, and what follows.
#[verifier::opaque]
pub open spec fn add_subnet_validator_tx_de(s: Seq<u8>) -> Read<AddSubnetValidatorTxView> {
    match BaseTx::de(s) {
        Err(e) => Err(e),
        Ok((base, s)) =>
    match Validator::de(s) {
        Err(e) => Err(e),
        Ok((validator, s)) =>
    match Id::de(s) {
        Err(e) => Err(e),
        Ok((subnet, s)) =>
    match Auth::de(s) {
        Err(e) => Err(e),
        Ok((subnet_auth, s)) =>
        Ok((AddSubnetValidatorTxView { base, validator, subnet, subnet_auth }, s)),
    },},},}
}

impl Wire for AddSubnetValidatorTx {
    open spec fn fits(v: AddSubnetValidatorTxView) -> bool {
        add_subnet_validator_tx_fits(v)
    }

    open spec fn ser(v: AddSubnetValidatorTxView) -> Seq<u8> {
        add_subnet_validator_tx_ser(v)
    }

    open spec fn de(s: Seq<u8>) -> Read<AddSubnetValidatorTxView> {
        add_subnet_validator_tx_de(s)
    }

    proof fn round_trip(v: AddSubnetValidatorTxView, t: Seq<u8>) {
        reveal(add_subnet_validator_tx_fits);
        reveal(add_subnet_validator_tx_ser);
        reveal(add_subnet_validator_tx_de);
        let r3 = Auth::ser(v.subnet_auth);
        Auth::round_trip(v.subnet_auth, t);
        lemma_concat(Id::ser(v.subnet), r3, t);
        Id::round_trip(v.subnet, r3 + t);
        let r2 = Id::ser(v.subnet) + r3;
        lemma_concat(Validator::ser(v.validator), r2, t);
        Validator::round_trip(v.validator, r2 + t);
        let r1 = Validator::ser(v.validator) + r2;
        lemma_concat(BaseTx::ser(v.base), r1, t);
        BaseTx::round_trip(v.base, r1 + t);
    }

    proof fn canonical(s: Seq<u8>) {
        reveal(add_subnet_validator_tx_fits);
        reveal(add_subnet_validator_tx_ser);
        reveal(add_subnet_validator_tx_de);
        if let Ok((v, t)) = Self::de(s) {
            BaseTx::canonical(s);
            let s1 = (BaseTx::de(s)->Ok_0).1;
            Validator::canonical(s1);
            let s2 = (Validator::de(s1)->Ok_0).1;
            Id::canonical(s2);
            let s3 = (Id::de(s2)->Ok_0).1;
            Auth::canonical(s3);
            let r3 = Auth::ser(v.subnet_auth);
            lemma_concat(Id::ser(v.subnet), r3, t);
            let r2 = Id::ser(v.subnet) + r3;
            lemma_concat(Validator::ser(v.validator), r2, t);
            let r1 = Validator::ser(v.validator) + r2;
            lemma_concat(BaseTx::ser(v.base), r1, t);
        }
    }

    fn can_write(&self) -> (r: bool) {
        proof {
            reveal(add_subnet_validator_tx_fits);
        }
        self.base.can_write() && self.validator.can_write() && self.subnet.can_write() && self.subnet_auth.can_write()
    }

    fn write(&self, out: &mut Vec<u8>) {
        proof {
            reveal(add_subnet_validator_tx_fits);
            reveal(add_subnet_validator_tx_ser);
        }
        self.base.write(out);
        self.validator.write(out);
        self.subnet.write(out);
        self.subnet_auth.write(out);
        proof {
            let r3 = Auth::ser(self.subnet_auth@);
            lemma_concat(((old(out)@ + BaseTx::ser(self.base@)) + Validator::ser(self.validator@)), Id::ser(self.subnet@), r3);
            let r2 = Id::ser(self.subnet@) + r3;
            lemma_concat((old(out)@ + BaseTx::ser(self.base@)), Validator::ser(self.validator@), r2);
            let r1 = Validator::ser(self.validator@) + r2;
            lemma_concat(old(out)@, BaseTx::ser(self.base@), r1);
        }
    }

    fn read(p: &mut Reader<'_>) -> (r: Result<AddSubnetValidatorTx, CodecError>) {
        proof {
            reveal(add_subnet_validator_tx_de);
        }
        let base: BaseTx = match BaseTx::read(p) {
            Ok(x) => x,
            Err(e) => {
                return Err(e);
            },
        };
        let validator: Validator = match Validator::read(p) {
            Ok(x) => x,
            Err(e) => {
                return Err(e);
            },
        };
        let subnet: Id = match Id::read(p) {
            Ok(x) => x,
            Err(e) => {
                return Err(e);
            },
        };
        let subnet_auth: Auth = match Auth::read(p) {
            Ok(x) => x,
            Err(e) => {
                return Err(e);
            },
        };
        Ok(AddSubnetValidatorTx { base, validator, subnet, subnet_auth })
    }
}

/// Asks to remove a validator of a subnet whose owner chooses them.
#[derive(Debug, PartialEq, Eq)]
pub struct RemoveSubnetValidatorTx {
    /// What most transactions have in common.
    pub base: BaseTx,
    /// The node.
    pub node_id: NodeId,
    /// The subnet.
    pub subnet: Id,
    /// The authorization of the subnet.
    pub subnet_auth: Auth,
}

/// What a [`RemoveSubnetValidatorTx`] holds.
#[verifier::ext_equal]
pub struct RemoveSubnetValidatorTxView {
    /// What most transactions have in common.
    pub base: BaseTxView,
    /// The node.
    pub node_id: Seq<u8>,
    /// The subnet.
    pub subnet: Seq<u8>,
    /// The authorization of the subnet.
    pub subnet_auth: AuthView,
}

impl View for RemoveSubnetValidatorTx {
    type V = RemoveSubnetValidatorTxView;

    open spec fn view(&self) -> RemoveSubnetValidatorTxView {
        RemoveSubnetValidatorTxView {
            base: self.base@,
            node_id: self.node_id@,
            subnet: self.subnet@,
            subnet_auth: self.subnet_auth@,
        }
    }
}

impl Dup for RemoveSubnetValidatorTx {
    fn dup(&self) -> (r: RemoveSubnetValidatorTx) {
        RemoveSubnetValidatorTx {
            base: self.base.dup(),
            node_id: self.node_id.dup(),
            subnet: self.subnet.dup(),
            subnet_auth: self.subnet_auth.dup(),
        }
    }
}

/// Whether every length of a [`RemoveSubnetValidatorTx`] fits its field.
#[verifier::opaque]
pub open spec fn remove_subnet_validator_tx_fits(v: RemoveSubnetValidatorTxView) -> bool {
    &&& BaseTx::fits(v.base)
    &&& NodeId::fits(v.node_id)
    &&& Id::fits(v.subnet)
    &&& Auth::fits(v.subnet_auth)
}

/// The fields of a [`RemoveSubnetValidatorTx`], in the order in which they are written.
#[verifier::opaque]
pub open spec fn remove_subnet_validator_tx_ser(v: RemoveSubnetValidatorTxView) -> Seq<u8> {
    BaseTx::ser(v.base) + (NodeId::ser(v.node_id) + (Id::ser(v.subnet) + (Auth::ser(v.subnet_auth))))
}

/// The fields of a [`RemoveSubnetValidatorTx`] at the start of `s`, and what follows.
#[verifier::opaque]
pub open spec fn remove_subnet_validator_tx_de(s: Seq<u8>) -> Read<RemoveSubnetValidatorTxView> {
    match BaseTx::de(s) {
        Err(e) => Err(e),
        Ok((base, s)) =>
    match NodeId::de(s) {
        Err(e) => Err(e),
        Ok((node_id, s)) =>
    match Id::de(s) {
        Err(e) => Err(e),
        Ok((subnet, s)) =>
    match Auth::de(s) {
        Err(e) => Err(e),
        Ok((subnet_auth, s)) =>
        Ok((RemoveSubnetValidatorTxView { base, node_id, subnet, subnet_auth }, s)),
    },},},}
}

impl Wire for RemoveSubnetValidatorTx {
    open spec fn fits(v: RemoveSubnetValidatorTxView) -> bool {
        remove_subnet_validator_tx_fits(v)
    }

    open spec fn ser(v: RemoveSubnetValidatorTxView) -> Seq<u8> {
        remove_subnet_validator_tx_ser(v)
    }

    open spec fn de(s: Seq<u8>) -> Read<RemoveSubnetValidatorTxView> {
        remove_subnet_validator_tx_de(s)
    }

    proof fn round_trip(v: RemoveSubnetValidatorTxView, t: Seq<u8>) {
        reveal(remove_subnet_validator_tx_fits);
        reveal(remove_subnet_validator_tx_ser);
        reveal(remove_subnet_validator_tx_de);
        let r3 = Auth::ser(v.subnet_auth);
        Auth::round_trip(v.subnet_auth, t);
        lemma_concat(Id::ser(v.subnet), r3, t);
        Id::round_trip(v.subnet, r3 + t);
        let r2 = Id::ser(v.subnet) + r3;
        lemma_concat(NodeId::ser(v.node_id), r2, t);
        NodeId::round_trip(v.node_id, r2 + t);
        let r1 = NodeId::ser(v.node_id) + r2;
        lemma_concat(BaseTx::ser(v.base), r1, t);
        BaseTx::round_trip(v.base, r1 + t);
    }

    proof fn canonical(s: Seq<u8>) {
        reveal(remove_subnet_validator_tx_fits);
        reveal(remove_subnet_validator_tx_ser);
        reveal(remove_subnet_validator_tx_de);
        if let Ok((v, t)) = Self::de(s) {
            BaseTx::canonical(s);
            let s1 = (BaseTx::de(s)->Ok_0).1;
            NodeId::canonical(s1);
            let s2 = (NodeId::de(s1)->Ok_0).1;
            Id::canonical(s2);
            let s3 = (Id::de(s2)->Ok_0).1;
            Auth::canonical(s3);
            let r3 = Auth::ser(v.subnet_auth);
            lemma_concat(Id::ser(v.subnet), r3, t);
            let r2 = Id::ser(v.subnet) + r3;
            lemma_concat(NodeId::ser(v.node_id), r2, t);
            let r1 = NodeId::ser(v.node_id) + r2;
            lemma_concat(BaseTx::ser(v.base), r1, t);
        }
    }

    fn can_write(&self) -> (r: bool) {
        proof {
            reveal(remove_subnet_validator_tx_fits);
        }
        self.base.can_write() && self.node_id.can_write() && self.subnet.can_write() && self.subnet_auth.can_write()
    }

    fn write(&self, out: &mut Vec<u8>) {
        proof {
            reveal(remove_subnet_validator_tx_fits);
            reveal(remove_subnet_validator_tx_ser);
        }
        self.base.write(out);
        self.node_id.write(out);
        self.subnet.write(out);
        self.subnet_auth.write(out);
        proof {
            let r3 = Auth::ser(self.subnet_auth@);
            lemma_concat(((old(out)@ + BaseTx::ser(self.base@)) + NodeId::ser(self.node_id@)), Id::ser(self.subnet@), r3);
            let r2 = Id::ser(self.subnet@) + r3;
            lemma_concat((old(out)@ + BaseTx::ser(self.base@)), NodeId::ser(self.node_id@), r2);
            let r1 = NodeId::ser(self.node_id@) + r2;
            lemma_concat(old(out)@, BaseTx::ser(self.base@), r1);
        }
    }

    fn read(p: &mut Reader<'_>) -> (r: Result<RemoveSubnetValidatorTx, CodecError>) {
        proof {
            reveal(remove_subnet_validator_tx_de);
        }
        let base: BaseTx = match BaseTx::read(p) {
            Ok(x) => x,
            Err(e) => {
                return Err(e);
            },
        };
        let node_id: NodeId = match NodeId::read(p) {
            Ok(x) => x,
            Err(e) => {
                return Err(e);
            },
        };
        let subnet: Id = match Id::read(p) {
            Ok(x) => x,
            Err(e) => {
                return Err(e);
            },
        };
        let subnet_auth: Auth = match Auth::read(p) {
            Ok(x) => x,
            Err(e) => {
                return Err(e);
            },
        };
        Ok(RemoveSubnetValidatorTx { base, node_id, subnet, subnet_auth })
    }
}

/// Asks to let anyone validate a subnet.
#[derive(Debug, PartialEq, Eq)]
pub struct TransformSubnetTx {
    /// What most transactions have in common.
    pub base: BaseTx,
    /// The subnet.
    pub subnet: Id,
    /// The asset that is staked.
    pub asset_id: Id,
    /// The supply to start with.
    pub initial_supply: u64,
    /// The most that the supply may grow to.
    pub maximum_supply: u64,
    /// The rate at which the shortest stakes consume the supply.
    pub min_consumption_rate: u64,
    /// The rate at which the longest stakes consume the supply.
    pub max_consumption_rate: u64,
    /// The least stake of a validator.
    pub min_validator_stake: u64,
    /// The greatest stake of a validator.
    pub max_validator_stake: u64,
    /// The shortest time to stake, in seconds.
    pub min_stake_duration: u32,
    /// The longest time to stake, in seconds.
    pub max_stake_duration: u32,
    /// The least share of the rewards of delegators that a validator keeps.
    pub min_delegation_fee: u32,
    /// The least stake of a delegator.
    pub min_delegator_stake: u64,
    /// How many times its own stake a validator may weigh.
    pub max_validator_weight_factor: u8,
    /// The share of the time that a validator must be up.
    pub uptime_requirement: u32,
    /// The authorization of the subnet.
    pub subnet_auth: Auth,
}

/// What a [`TransformSubnetTx`] holds.
#[verifier::ext_equal]
pub struct TransformSubnetTxView {
    /// What most transactions have in common.
    pub base: BaseTxView,
    /// The subnet.
    pub subnet: Seq<u8>,
    /// The asset that is staked.
    pub asset_id: Seq<u8>,
    /// The supply to start with.
    pub initial_supply: u64,
    /// The most that the supply may grow to.
    pub maximum_supply: u64,
    /// The rate at which the shortest stakes consume the supply.
    pub min_consumption_rate: u64,
    /// The rate at which the longest stakes consume the supply.
    pub max_consumption_rate: u64,
    /// The least stake of a validator.
    pub min_validator_stake: u64,
    /// The greatest stake of a validator.
    pub max_validator_stake: u64,
    /// The shortest time to stake, in seconds.
    pub min_stake_duration: u32,
    /// The longest time to stake, in seconds.
    pub max_stake_duration: u32,
    /// The least share of the rewards of delegators that a validator keeps.
    pub min_delegation_fee: u32,
    /// The least stake of a delegator.
    pub min_delegator_stake: u64,
    /// How many times its own stake a validator may weigh.
    pub max_validator_weight_factor: u8,
    /// The share of the time that a validator must be up.
    pub uptime_requirement: u32,
    /// The authorization of the subnet.
    pub subnet_auth: AuthView,
}

impl View for TransformSubnetTx {
    type V = TransformSubnetTxView;

    open spec fn view(&self) -> TransformSubnetTxView {
        TransformSubnetTxView {
            base: self.base@,
            subnet: self.subnet@,
            asset_id: self.asset_id@,
            initial_supply: self.initial_supply@,
            maximum_supply: self.maximum_supply@,
            min_consumption_rate: self.min_consumption_rate@,
            max_consumption_rate: self.max_consumption_rate@,
            min_validator_stake: self.min_validator_stake@,
            max_validator_stake: self.max_validator_stake@,
            min_stake_duration: self.min_stake_duration@,
            max_stake_duration: self.max_stake_duration@,
            min_delegation_fee: self.min_delegation_fee@,
            min_delegator_stake: self.min_delegator_stake@,
            max_validator_weight_factor: self.max_validator_weight_factor@,
            uptime_requirement: self.uptime_requirement@,
            subnet_auth: self.subnet_auth@,
        }
    }
}

impl Dup for TransformSubnetTx {
    fn dup(&self) -> (r: TransformSubnetTx) {
        TransformSubnetTx {
            base: self.base.dup(),
            subnet: self.subnet.dup(),
            asset_id: self.asset_id.dup(),
            initial_supply: self.initial_supply.dup(),
            maximum_supply: self.maximum_supply.dup(),
            min_consumption_rate: self.min_consumption_rate.dup(),
            max_consumption_rate: self.max_consumption_rate.dup(),
            min_validator_stake: self.min_validator_stake.dup(),
            max_validator_stake: self.max_validator_stake.dup(),
            min_stake_duration: self.min_stake_duration.dup(),
            max_stake_duration: self.max_stake_duration.dup(),
            min_delegation_fee: self.min_delegation_fee.dup(),
            min_delegator_stake: self.min_delegator_stake.dup(),
            max_validator_weight_factor: self.max_validator_weight_factor.dup(),
            uptime_requirement: self.uptime_requirement.dup(),
            subnet_auth: self.subnet_auth.dup(),
        }
    }
}

/// Whether every length of a [`TransformSubnetTx`] fits its field.
#[verifier::opaque]
pub open spec fn transform_subnet_tx_fits(v: TransformSubnetTxView) -> bool {
    &&& BaseTx::fits(v.base)
    &&& Id::fits(v.subnet)
    &&& Id::fits(v.asset_id)
    &&& u64::fits(v.initial_supply)
    &&& u64::fits(v.maximum_supply)
    &&& u64::fits(v.min_consumption_rate)
    &&& u64::fits(v.max_consumption_rate)
    &&& u64::fits(v.min_validator_stake)
    &&& u64::fits(v.max_validator_stake)
    &&& u32::fits(v.min_stake_duration)
    &&& u32::fits(v.max_stake_duration)
    &&& u32::fits(v.min_delegation_fee)
    &&& u64::fits(v.min_delegator_stake)
    &&& u8::fits(v.max_validator_weight_factor)
    &&& u32::fits(v.uptime_requirement)
    &&& Auth::fits(v.subnet_auth)
}

/// The fields of a [`TransformSubnetTx`], in the order in which they are written.
#[verifier::opaque]
pub open spec fn transform_subnet_tx_ser(v: TransformSubnetTxView) -> Seq<u8> {
    BaseTx::ser(v.base) + (Id::ser(v.subnet) + (Id::ser(v.asset_id) + (u64::ser(v.initial_supply) + (u64::ser(v.maximum_supply) + (u64::ser(v.min_consumption_rate) + (u64::ser(v.max_consumption_rate) + (u64::ser(v.min_validator_stake) + (u64::ser(v.max_validator_stake) + (u32::ser(v.min_stake_duration) + (u32::ser(v.max_stake_duration) + (u32::ser(v.min_delegation_fee) + (u64::ser(v.min_delegator_stake) + (u8::ser(v.max_validator_weight_factor) + (u32::ser(v.uptime_requirement) + (Auth::ser(v.subnet_auth))))))))))))))))
}

/// The fields of a [`TransformSubnetTx`] at the start of `s`, and what follows.
#[verifier::opaque]
pub open spec fn transform_subnet_tx_de(s: Seq<u8>) -> Read<TransformSubnetTxView> {
    match BaseTx::de(s) {
        Err(e) => Err(e),
        Ok((base, s)) =>
    match Id::de(s) {
        Err(e) => Err(e),
        Ok((subnet, s)) =>
    match Id::de(s) {
        Err(e) => Err(e),
        Ok((asset_id, s)) =>
    match u64::de(s) {
        Err(e) => Err(e),
        Ok((initial_supply, s)) =>
    match u64::de(s) {
        Err(e) => Err(e),
        Ok((maximum_supply, s)) =>
    match u64::de(s) {
        Err(e) => Err(e),
        Ok((min_consumption_rate, s)) =>
    match u64::de(s) {
        Err(e) => Err(e),
        Ok((max_consumption_rate, s)) =>
    match u64::de(s) {
        Err(e) => Err(e),
        Ok((min_validator_stake, s)) =>
    match u64::de(s) {
        Err(e) => Err(e),
        Ok((max_validator_stake, s)) =>
    match u32::de(s) {
        Err(e) => Err(e),
        Ok((min_stake_duration, s)) =>
    match u32::de(s) {
        Err(e) => Err(e),
        Ok((max_stake_duration, s)) =>
    match u32::de(s) {
        Err(e) => Err(e),
        Ok((min_delegation_fee, s)) =>
    match u64::de(s) {
        Err(e) => Err(e),
        Ok((min_delegator_stake, s)) =>
    match u8::de(s) {
        Err(e) => Err(e),
        Ok((max_validator_weight_factor, s)) =>
    match u32::de(s) {
        Err(e) => Err(e),
        Ok((uptime_requirement, s)) =>
    match Auth::de(s) {
        Err(e) => Err(e),
        Ok((subnet_auth, s)) =>
        Ok((TransformSubnetTxView { base, subnet, asset_id, initial_supply, maximum_supply, min_consumption_rate, max_consumption_rate, min_validator_stake, max_validator_stake, min_stake_duration, max_stake_duration, min_delegation_fee, min_delegator_stake, max_validator_weight_factor, uptime_requirement, subnet_auth }, s)),
    },},},},},},},},},},},},},},},}
}

impl Wire for TransformSubnetTx {
    open spec fn fits(v: TransformSubnetTxView) -> bool {
        transform_subnet_tx_fits(v)
    }

    open spec fn ser(v: TransformSubnetTxView) -> Seq<u8> {
        transform_subnet_tx_ser(v)
    }

    open spec fn de(s: Seq<u8>) -> Read<TransformSubnetTxView> {
        transform_subnet_tx_de(s)
    }

    proof fn round_trip(v: TransformSubnetTxView, t: Seq<u8>) {
        reveal(transform_subnet_tx_fits);
        reveal(transform_subnet_tx_ser);
        reveal(transform_subnet_tx_de);
        let r15 = Auth::ser(v.subnet_auth);
        Auth::round_trip(v.subnet_auth, t);
        lemma_concat(u32::ser(v.uptime_requirement), r15, t);
        u32::round_trip(v.uptime_requirement, r15 + t);
        let r14 = u32::ser(v.uptime_requirement) + r15;
        lemma_concat(u8::ser(v.max_validator_weight_factor), r14, t);
        u8::round_trip(v.max_validator_weight_factor, r14 + t);
        let r13 = u8::ser(v.max_validator_weight_factor) + r14;
        lemma_concat(u64::ser(v.min_delegator_stake), r13, t);
        u64::round_trip(v.min_delegator_stake, r13 + t);
        let r12 = u64::ser(v.min_delegator_stake) + r13;
        lemma_concat(u32::ser(v.min_delegation_fee), r12, t);
        u32::round_trip(v.min_delegation_fee, r12 + t);
        let r11 = u32::ser(v.min_delegation_fee) + r12;
        lemma_concat(u32::ser(v.max_stake_duration), r11, t);
        u32::round_trip(v.max_stake_duration, r11 + t);
        let r10 = u32::ser(v.max_stake_duration) + r11;
        lemma_concat(u32::ser(v.min_stake_duration), r10, t);
        u32::round_trip(v.min_stake_duration, r10 + t);
        let r9 = u32::ser(v.min_stake_duration) + r10;
        lemma_concat(u64::ser(v.max_validator_stake), r9, t);
        u64::round_trip(v.max_validator_stake, r9 + t);
        let r8 = u64::ser(v.max_validator_stake) + r9;
        lemma_concat(u64::ser(v.min_validator_stake), r8, t);
        u64::round_trip(v.min_validator_stake, r8 + t);
        let r7 = u64::ser(v.min_validator_stake) + r8;
        lemma_concat(u64::ser(v.max_consumption_rate), r7, t);
        u64::round_trip(v.max_consumption_rate, r7 + t);
        let r6 = u64::ser(v.max_consumption_rate) + r7;
        lemma_concat(u64::ser(v.min_consumption_rate), r6, t);
        u64::round_trip(v.min_consumption_rate, r6 + t);
        let r5 = u64::ser(v.min_consumption_rate) + r6;
        lemma_concat(u64::ser(v.maximum_supply), r5, t);
        u64::round_trip(v.maximum_supply, r5 + t);
        let r4 = u64::ser(v.maximum_supply) + r5;
        lemma_concat(u64::ser(v.initial_supply), r4, t);
        u64::round_trip(v.initial_supply, r4 + t);
        let r3 = u64::ser(v.initial_supply) + r4;
        lemma_concat(Id::ser(v.asset_id), r3, t);
        Id::round_trip(v.asset_id, r3 + t);
        let r2 = Id::ser(v.asset_id) + r3;
        lemma_concat(Id::ser(v.subnet), r2, t);
        Id::round_trip(v.subnet, r2 + t);
        let r1 = Id::ser(v.subnet) + r2;
        lemma_concat(BaseTx::ser(v.base), r1, t);
        BaseTx::round_trip(v.base, r1 + t);
    }

    proof fn canonical(s: Seq<u8>) {
        reveal(transform_subnet_tx_fits);
        reveal(transform_subnet_tx_ser);
        reveal(transform_subnet_tx_de);
        if let Ok((v, t)) = Self::de(s) {
            BaseTx::canonical(s);
            let s1 = (BaseTx::de(s)->Ok_0).1;
            Id::canonical(s1);
            let s2 = (Id::de(s1)->Ok_0).1;
            Id::canonical(s2);
            let s3 = (Id::de(s2)->Ok_0).1;
            u64::canonical(s3);
            let s4 = (u64::de(s3)->Ok_0).1;
            u64::canonical(s4);
            let s5 = (u64::de(s4)->Ok_0).1;
            u64::canonical(s5);
            let s6 = (u64::de(s5)->Ok_0).1;
            u64::canonical(s6);
            let s7 = (u64::de(s6)->Ok_0).1;
            u64::canonical(s7);
            let s8 = (u64::de(s7)->Ok_0).1;
            u64::canonical(s8);
            let s9 = (u64::de(s8)->Ok_0).1;
            u32::canonical(s9);
            let s10 = (u32::de(s9)->Ok_0).1;
            u32::canonical(s10);
            let s11 = (u32::de(s10)->Ok_0).1;
            u32::canonical(s11);
            let s12 = (u32::de(s11)->Ok_0).1;
            u64::canonical(s12);
            let s13 = (u64::de(s12)->Ok_0).1;
            u8::canonical(s13);
            let s14 = (u8::de(s13)->Ok_0).1;
            u32::canonical(s14);
            let s15 = (u32::de(s14)->Ok_0).1;
            Auth::canonical(s15);
            let r15 = Auth::ser(v.subnet_auth);
            lemma_concat(u32::ser(v.uptime_requirement), r15, t);
            let r14 = u32::ser(v.uptime_requirement) + r15;
            lemma_concat(u8::ser(v.max_validator_weight_factor), r14, t);
            let r13 = u8::ser(v.max_validator_weight_factor) + r14;
            lemma_concat(u64::ser(v.min_delegator_stake), r13, t);
            let r12 = u64::ser(v.min_delegator_stake) + r13;
            lemma_concat(u32::ser(v.min_delegation_fee), r12, t);
            let r11 = u32::ser(v.min_delegation_fee) + r12;
            lemma_concat(u32::ser(v.max_stake_duration), r11, t);
            let r10 = u32::ser(v.max_stake_duration) + r11;
            lemma_concat(u32::ser(v.min_stake_duration), r10, t);
            let r9 = u32::ser(v.min_stake_duration) + r10;
            lemma_concat(u64::ser(v.max_validator_stake), r9, t);
            let r8 = u64::ser(v.max_validator_stake) + r9;
            lemma_concat(u64::ser(v.min_validator_stake), r8, t);
            let r7 = u64::ser(v.min_validator_stake) + r8;
            lemma_concat(u64::ser(v.max_consumption_rate), r7, t);
            let r6 = u64::ser(v.max_consumption_rate) + r7;
            lemma_concat(u64::ser(v.min_consumption_rate), r6, t);
            let r5 = u64::ser(v.min_consumption_rate) + r6;
            lemma_concat(u64::ser(v.maximum_supply), r5, t);
            let r4 = u64::ser(v.maximum_supply) + r5;
            lemma_concat(u64::ser(v.initial_supply), r4, t);
            let r3 = u64::ser(v.initial_supply) + r4;
            lemma_concat(Id::ser(v.asset_id), r3, t);
            let r2 = Id::ser(v.asset_id) + r3;
            lemma_concat(Id::ser(v.subnet), r2, t);
            let r1 = Id::ser(v.subnet) + r2;
            lemma_concat(BaseTx::ser(v.base), r1, t);
        }
    }

    fn can_write(&self) -> (r: bool) {
        proof {
            reveal(transform_subnet_tx_fits);
        }
        self.base.can_write() && self.subnet.can_write() && self.asset_id.can_write() && self.initial_supply.can_write() && self.maximum_supply.can_write() && self.min_consumption_rate.can_write() && self.max_consumption_rate.can_write() && self.min_validator_stake.can_write() && self.max_validator_stake.can_write() && self.min_stake_duration.can_write() && self.max_stake_duration.can_write() && self.min_delegation_fee.can_write() && self.min_delegator_stake.can_write() && self.max_validator_weight_factor.can_write() && self.uptime_requirement.can_write() && self.subnet_auth.can_write()
    }

    fn write(&self, out: &mut Vec<u8>) {
        proof {
            reveal(transform_subnet_tx_fits);
            reveal(transform_subnet_tx_ser);
        }
        self.base.write(out);
        self.subnet.write(out);
        self.asset_id.write(out);
        self.initial_supply.write(out);
        self.maximum_supply.write(out);
        self.min_consumption_rate.write(out);
        self.max_consumption_rate.write(out);
        self.min_validator_stake.write(out);
        self.max_validator_stake.write(out);
        self.min_stake_duration.write(out);
        self.max_stake_duration.write(out);
        self.min_delegation_fee.write(out);
        self.min_delegator_stake.write(out);
        self.max_validator_weight_factor.write(out);
        self.uptime_requirement.write(out);
        self.subnet_auth.write(out);
        proof {
            let r15 = Auth::ser(self.subnet_auth@);
            lemma_concat(((((((((((((((old(out)@ + BaseTx::ser(self.base@)) + Id::ser(self.subnet@)) + Id::ser(self.asset_id@)) + u64::ser(self.initial_supply@)) + u64::ser(self.maximum_supply@)) + u64::ser(self.min_consumption_rate@)) + u64::ser(self.max_consumption_rate@)) + u64::ser(self.min_validator_stake@)) + u64::ser(self.max_validator_stake@)) + u32::ser(self.min_stake_duration@)) + u32::ser(self.max_stake_duration@)) + u32::ser(self.min_delegation_fee@)) + u64::ser(self.min_delegator_stake@)) + u8::ser(self.max_validator_weight_factor@)), u32::ser(self.uptime_requirement@), r15);
            let r14 = u32::ser(self.uptime_requirement@) + r15;
            lemma_concat((((((((((((((old(out)@ + BaseTx::ser(self.base@)) + Id::ser(self.subnet@)) + Id::ser(self.asset_id@)) + u64::ser(self.initial_supply@)) + u64::ser(self.maximum_supply@)) + u64::ser(self.min_consumption_rate@)) + u64::ser(self.max_consumption_rate@)) + u64::ser(self.min_validator_stake@)) + u64::ser(self.max_validator_stake@)) + u32::ser(self.min_stake_duration@)) + u32::ser(self.max_stake_duration@)) + u32::ser(self.min_delegation_fee@)) + u64::ser(self.min_delegator_stake@)), u8::ser(self.max_validator_weight_factor@), r14);
            let r13 = u8::ser(self.max_validator_weight_factor@) + r14;
            lemma_concat(((((((((((((old(out)@ + BaseTx::ser(self.base@)) + Id::ser(self.subnet@)) + Id::ser(self.asset_id@)) + u64::ser(self.initial_supply@)) + u64::ser(self.maximum_supply@)) + u64::ser(self.min_consumption_rate@)) + u64::ser(self.max_consumption_rate@)) + u64::ser(self.min_validator_stake@)) + u64::ser(self.max_validator_stake@)) + u32::ser(self.min_stake_duration@)) + u32::ser(self.max_stake_duration@)) + u32::ser(self.min_delegation_fee@)), u64::ser(self.min_delegator_stake@), r13);
            let r12 = u64::ser(self.min_delegator_stake@) + r13;
            lemma_concat((((((((((((old(out)@ + BaseTx::ser(self.base@)) + Id::ser(self.subnet@)) + Id::ser(self.asset_id@)) + u64::ser(self.initial_supply@)) + u64::ser(self.maximum_supply@)) + u64::ser(self.min_consumption_rate@)) + u64::ser(self.max_consumption_rate@)) + u64::ser(self.min_validator_stake@)) + u64::ser(self.max_validator_stake@)) + u32::ser(self.min_stake_duration@)) + u32::ser(self.max_stake_duration@)), u32::ser(self.min_delegation_fee@), r12);
            let r11 = u32::ser(self.min_delegation_fee@) + r12;
            lemma_concat(((((((((((old(out)@ + BaseTx::ser(self.base@)) + Id::ser(self.subnet@)) + Id::ser(self.asset_id@)) + u64::ser(self.initial_supply@)) + u64::ser(self.maximum_supply@)) + u64::ser(self.min_consumption_rate@)) + u64::ser(self.max_consumption_rate@)) + u64::ser(self.min_validator_stake@)) + u64::ser(self.max_validator_stake@)) + u32::ser(self.min_stake_duration@)), u32::ser(self.max_stake_duration@), r11);
            let r10 = u32::ser(self.max_stake_duration@) + r11;
            lemma_concat((((((((((old(out)@ + BaseTx::ser(self.base@)) + Id::ser(self.subnet@)) + Id::ser(self.asset_id@)) + u64::ser(self.initial_supply@)) + u64::ser(self.maximum_supply@)) + u64::ser(self.min_consumption_rate@)) + u64::ser(self.max_consumption_rate@)) + u64::ser(self.min_validator_stake@)) + u64::ser(self.max_validator_stake@)), u32::ser(self.min_stake_duration@), r10);
            let r9 = u32::ser(self.min_stake_duration@) + r10;
            lemma_concat(((((((((old(out)@ + BaseTx::ser(self.base@)) + Id::ser(self.subnet@)) + Id::ser(self.asset_id@)) + u64::ser(self.initial_supply@)) + u64::ser(self.maximum_supply@)) + u64::ser(self.min_consumption_rate@)) + u64::ser(self.max_consumption_rate@)) + u64::ser(self.min_validator_stake@)), u64::ser(self.max_validator_stake@), r9);
            let r8 = u64::ser(self.max_validator_stake@) + r9;
            lemma_concat((((((((old(out)@ + BaseTx::ser(self.base@)) + Id::ser(self.subnet@)) + Id::ser(self.asset_id@)) + u64::ser(self.initial_supply@)) + u64::ser(self.maximum_supply@)) + u64::ser(self.min_consumption_rate@)) + u64::ser(self.max_consumption_rate@)), u64::ser(self.min_validator_stake@), r8);
            let r7 = u64::ser(self.min_validator_stake@) + r8;
            lemma_concat(((((((old(out)@ + BaseTx::ser(self.base@)) + Id::ser(self.subnet@)) + Id::ser(self.asset_id@)) + u64::ser(self.initial_supply@)) + u64::ser(self.maximum_supply@)) + u64::ser(self.min_consumption_rate@)), u64::ser(self.max_consumption_rate@), r7);
            let r6 = u64::ser(self.max_consumption_rate@) + r7;
            lemma_concat((((((old(out)@ + BaseTx::ser(self.base@)) + Id::ser(self.subnet@)) + Id::ser(self.asset_id@)) + u64::ser(self.initial_supply@)) + u64::ser(self.maximum_supply@)), u64::ser(self.min_consumption_rate@), r6);
            let r5 = u64::ser(self.min_consumption_rate@) + r6;
            lemma_concat(((((old(out)@ + BaseTx::ser(self.base@)) + Id::ser(self.subnet@)) + Id::ser(self.asset_id@)) + u64::ser(self.initial_supply@)), u64::ser(self.maximum_supply@), r5);
            let r4 = u64::ser(self.maximum_supply@) + r5;
            lemma_concat((((old(out)@ + BaseTx::ser(self.base@)) + Id::ser(self.subnet@)) + Id::ser(self.asset_id@)), u64::ser(self.initial_supply@), r4);
            let r3 = u64::ser(self.initial_supply@) + r4;
            lemma_concat(((old(out)@ + BaseTx::ser(self.base@)) + Id::ser(self.subnet@)), Id::ser(self.asset_id@), r3);
            let r2 = Id::ser(self.asset_id@) + r3;
            lemma_concat((old(out)@ + BaseTx::ser(self.base@)), Id::ser(self.subnet@), r2);
            let r1 = Id::ser(self.subnet@) + r2;
            lemma_concat(old(out)@, BaseTx::ser(self.base@), r1);
        }
    }

    fn read(p: &mut Reader<'_>) -> (r: Result<TransformSubnetTx, CodecError>) {
        proof {
            reveal(transform_subnet_tx_de);
        }
        let base: BaseTx = match BaseTx::read(p) {
            Ok(x) => x,
            Err(e) => {
                return Err(e);
            },
        };
        let subnet: Id = match Id::read(p) {
            Ok(x) => x,
            Err(e) => {
                return Err(e);
            },
        };
        let asset_id: Id = match Id::read(p) {
            Ok(x) => x,
            Err(e) => {
                return Err(e);
            },
        };
        let initial_supply: u64 = match u64::read(p) {
            Ok(x) => x,
            Err(e) => {
                return Err(e);
            },
        };
        let maximum_supply: u64 = match u64::read(p) {
            Ok(x) => x,
            Err(e) => {
                return Err(e);
            },
        };
        let min_consumption_rate: u64 = match u64::read(p) {
            Ok(x) => x,
            Err(e) => {
                return Err(e);
            },
        };
        let max_consumption_rate: u64 = match u64::read(p) {
            Ok(x) => x,
            Err(e) => {
                return Err(e);
            },
        };
        let min_validator_stake: u64 = match u64::read(p) {
            Ok(x) => x,
            Err(e) => {
                return Err(e);
            },
        };
        let max_validator_stake: u64 = match u64::read(p) {
            Ok(x) => x,
            Err(e) => {
                return Err(e);
            },
        };
        let min_stake_duration: u32 = match u32::read(p) {
            Ok(x) => x,
            Err(e) => {
                return Err(e);
            },
        };
        let max_stake_duration: u32 = match u32::read(p) {
            Ok(x) => x,
            Err(e) => {
                return Err(e);
            },
        };
        let min_delegation_fee: u32 = match u32::read(p) {
            Ok(x) => x,
            Err(e) => {
                return Err(e);
            },
        };
        let min_delegator_stake: u64 = match u64::read(p) {
            Ok(x) => x,
            Err(e) => {
                return Err(e);
            },
        };
        let max_validator_weight_factor: u8 = match u8::read(p) {
            Ok(x) => x,
            Err(e) => {
                return Err(e);
            },
        };
        let uptime_requirement: u32 = match u32::read(p) {
            Ok(x) => x,
            Err(e) => {
                return Err(e);
            },
        };
        let subnet_auth: Auth = match Auth::read(p) {
            Ok(x) => x,
            Err(e) => {
                return Err(e);
            },
        };
        Ok(TransformSubnetTx { base, subnet, asset_id, initial_supply, maximum_supply, min_consumption_rate, max_consumption_rate, min_validator_stake, max_validator_stake, min_stake_duration, max_stake_duration, min_delegation_fee, min_delegator_stake, max_validator_weight_factor, uptime_requirement, subnet_auth })
    }
}

/// Asks to give a subnet another owner.
#[derive(Debug, PartialEq, Eq)]
pub struct TransferSubnetOwnershipTx {
    /// What most transactions have in common.
    pub base: BaseTx,
    /// The subnet.
    pub subnet: Id,
    /// The authorization of the subnet.
    pub subnet_auth: Auth,
    /// Who controls the subnet from there on.
    pub owner: Owner,
}

/// What a [`TransferSubnetOwnershipTx`] holds.
#[verifier::ext_equal]
pub struct TransferSubnetOwnershipTxView {
    /// What most transactions have in common.
    pub base: BaseTxView,
    /// The subnet.
    pub subnet: Seq<u8>,
    /// The authorization of the subnet.
    pub subnet_auth: AuthView,
    /// Who controls the subnet from there on.
    pub owner: OwnerView,
}

impl View for TransferSubnetOwnershipTx {
    type V = TransferSubnetOwnershipTxView;

    open spec fn view(&self) -> TransferSubnetOwnershipTxView {
        TransferSubnetOwnershipTxView {
            base: self.base@,
            subnet: self.subnet@,
            subnet_auth: self.subnet_auth@,
            owner: self.owner@,
        }
    }
}

impl Dup for TransferSubnetOwnershipTx {
    fn dup(&self) -> (r: TransferSubnetOwnershipTx) {
        TransferSubnetOwnershipTx {
            base: self.base.dup(),
            subnet: self.subnet.dup(),
            subnet_auth: self.subnet_auth.dup(),
            owner: self.owner.dup(),
        }
    }
}

/// Whether every length of a [`TransferSubnetOwnershipTx`] fits its field.
#[verifier::opaque]
pub open spec fn transfer_subnet_ownership_tx_fits(v: TransferSubnetOwnershipTxView) -> bool {
    &&& BaseTx::fits(v.base)
    &&& Id::fits(v.subnet)
    &&& Auth::fits(v.subnet_auth)
    &&& Owner::fits(v.owner)
}

/// The fields of a [`TransferSubnetOwnershipTx`], in the order in which they are written.
#[verifier::opaque]
pub open spec fn transfer_subnet_ownership_tx_ser(v: TransferSubnetOwnershipTxView) -> Seq<u8> {
    BaseTx::ser(v.base) + (Id::ser(v.subnet) + (Auth::ser(v.subnet_auth) + (Owner::ser(v.owner))))
}

/// The fields of a [`TransferSubnetOwnershipTx`] at the start of `s`, and what follows.
#[verifier::opaque]
pub open spec fn transfer_subnet_ownership_tx_de(s: Seq<u8>) -> Read<TransferSubnetOwnershipTxView> {
    match BaseTx::de(s) {
        Err(e) => Err(e),
        Ok((base, s)) =>
    match Id::de(s) {
        Err(e) => Err(e),
        Ok((subnet, s)) =>
    match Auth::de(s) {
        Err(e) => Err(e),
        Ok((subnet_auth, s)) =>
    match Owner::de(s) {
        Err(e) => Err(e),
        Ok((owner, s)) =>
        Ok((TransferSubnetOwnershipTxView { base, subnet, subnet_auth, owner }, s)),
    },},},}
}

impl Wire for TransferSubnetOwnershipTx {
    open spec fn fits(v: TransferSubnetOwnershipTxView) -> bool {
        transfer_subnet_ownership_tx_fits(v)
    }

    open spec fn ser(v: TransferSubnetOwnershipTxView) -> Seq<u8> {
        transfer_subnet_ownership_tx_ser(v)
    }

    open spec fn de(s: Seq<u8>) -> Read<TransferSubnetOwnershipTxView> {
        transfer_subnet_ownership_tx_de(s)
    }

    proof fn round_trip(v: TransferSubnetOwnershipTxView, t: Seq<u8>) {
        reveal(transfer_subnet_ownership_tx_fits);
        reveal(transfer_subnet_ownership_tx_ser);
        reveal(transfer_subnet_ownership_tx_de);
        let r3 = Owner::ser(v.owner);
        Owner::round_trip(v.owner, t);
        lemma_concat(Auth::ser(v.subnet_auth), r3, t);
        Auth::round_trip(v.subnet_auth, r3 + t);
        let r2 = Auth::ser(v.subnet_auth) + r3;
        lemma_concat(Id::ser(v.subnet), r2, t);
        Id::round_trip(v.subnet, r2 + t);
        let r1 = Id::ser(v.subnet) + r2;
        lemma_concat(BaseTx::ser(v.base), r1, t);
        BaseTx::round_trip(v.base, r1 + t);
    }

    proof fn canonical(s: Seq<u8>) {
        reveal(transfer_subnet_ownership_tx_fits);
        reveal(transfer_subnet_ownership_tx_ser);
        reveal(transfer_subnet_ownership_tx_de);
        if let Ok((v, t)) = Self::de(s) {
            BaseTx::canonical(s);
            let s1 = (BaseTx::de(s)->Ok_0).1;
            Id::canonical(s1);
            let s2 = (Id::de(s1)->Ok_0).1;
            Auth::canonical(s2);
            let s3 = (Auth::de(s2)->Ok_0).1;
            Owner::canonical(s3);
            let r3 = Owner::ser(v.owner);
            lemma_concat(Auth::ser(v.subnet_auth), r3, t);
            let r2 = Auth::ser(v.subnet_auth) + r3;
            lemma_concat(Id::ser(v.subnet), r2, t);
            let r1 = Id::ser(v.subnet) + r2;
            lemma_concat(BaseTx::ser(v.base), r1, t);
        }
    }

    fn can_write(&self) -> (r: bool) {
        proof {
            reveal(transfer_subnet_ownership_tx_fits);
        }
        self.base.can_write() && self.subnet.can_write() && self.subnet_auth.can_write() && self.owner.can_write()
    }

    fn write(&self, out: &mut Vec<u8>) {
        proof {
            reveal(transfer_subnet_ownership_tx_fits);
            reveal(transfer_subnet_ownership_tx_ser);
        }
        self.base.write(out);
        self.subnet.write(out);
        self.subnet_auth.write(out);
        self.owner.write(out);
        proof {
            let r3 = Owner::ser(self.owner@);
            lemma_concat(((old(out)@ + BaseTx::ser(self.base@)) + Id::ser(self.subnet@)), Auth::ser(self.subnet_auth@), r3);
            let r2 = Auth::ser(self.subnet_auth@) + r3;
            lemma_concat((old(out)@ + BaseTx::ser(self.base@)), Id::ser(self.subnet@), r2);
            let r1 = Id::ser(self.subnet@) + r2;
            lemma_concat(old(out)@, BaseTx::ser(self.base@), r1);
        }
    }

    fn read(p: &mut Reader<'_>) -> (r: Result<TransferSubnetOwnershipTx, CodecError>) {
        proof {
            reveal(transfer_subnet_ownership_tx_de);
        }
        let base: BaseTx = match BaseTx::read(p) {
            Ok(x) => x,
            Err(e) => {
                return Err(e);
            },
        };
        let subnet: Id = match Id::read(p) {
            Ok(x) => x,
            Err(e) => {
                return Err(e);
            },
        };
        let subnet_auth: Auth = match Auth::read(p) {
            Ok(x) => x,
            Err(e) => {
                return Err(e);
            },
        };
        let owner: Owner = match Owner::read(p) {
            Ok(x) => x,
            Err(e) => {
                return Err(e);
            },
        };
        Ok(TransferSubnetOwnershipTx { base, subnet, subnet_auth, owner })
    }
}

} // verus!
