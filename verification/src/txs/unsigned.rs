//! What transactions ask for.
use vstd::prelude::*;

use crate::codec::{be, lemma_concat, lemma_pow256, lemma_rd_be, lemma_rd_be_sound, lemma_rd_fixed, lemma_rd_fixed_sound, push_fixed, push_u32, rd_be, CodecError, Reader};
use crate::collections::ordmap::Dup;
use crate::ids::Id;
use crate::signer::{Signer, SignerView};
use crate::txs::components::{Auth, AuthView, BaseTx, BaseTxView, Owner, OwnerView, TransferableOutput, TransferableOutputView};
use crate::txs::delegation::{AddDelegatorTx, AddDelegatorTxView, AddPermissionlessDelegatorTx, AddPermissionlessDelegatorTxView};
use crate::txs::l1::{ConvertSubnetToL1Tx, ConvertSubnetToL1TxView, DisableL1ValidatorTx, DisableL1ValidatorTxView, IncreaseL1ValidatorBalanceTx, IncreaseL1ValidatorBalanceTxView, RegisterL1ValidatorTx, RegisterL1ValidatorTxView, SetL1ValidatorWeightTx, SetL1ValidatorWeightTxView};
use crate::txs::subnets::{AddSubnetValidatorTx, AddSubnetValidatorTxView, RemoveSubnetValidatorTx, RemoveSubnetValidatorTxView, TransferSubnetOwnershipTx, TransferSubnetOwnershipTxView, TransformSubnetTx, TransformSubnetTxView};
use crate::txs::transfers::{AdvanceTimeTx, AdvanceTimeTxView, ExportTx, ExportTxView, ImportTx, ImportTxView};
use crate::wire::{de_fixed, List, Read, Wire};

pub use crate::txs::validator::{Validator, ValidatorView};

verus! {

/// Asks for a validator of the primary network, without a BLS key.
#[derive(Debug, PartialEq, Eq)]
pub struct AddValidatorTx {
    /// What most transactions have in common.
    pub base: BaseTx,
    /// The validator.
    pub validator: Validator,
    /// The outputs that are staked.
    pub stake_outs: List<TransferableOutput>,
    /// Who gets the reward.
    pub rewards_owner: Owner,
    /// The share of the rewards of delegators that the validator keeps.
    pub delegation_shares: u32,
}

/// What an [`AddValidatorTx`] holds.
#[verifier::ext_equal]
pub struct AddValidatorTxView {
    /// What most transactions have in common.
    pub base: BaseTxView,
    /// The validator.
    pub validator: ValidatorView,
    /// The outputs that are staked.
    pub stake_outs: Seq<TransferableOutputView>,
    /// Who gets the reward.
    pub rewards_owner: OwnerView,
    /// The share of the rewards of delegators that the validator keeps.
    pub delegation_shares: u32,
}

impl View for AddValidatorTx {
    type V = AddValidatorTxView;

    open spec fn view(&self) -> AddValidatorTxView {
        AddValidatorTxView {
            base: self.base@,
            validator: self.validator@,
            stake_outs: self.stake_outs@,
            rewards_owner: self.rewards_owner@,
            delegation_shares: self.delegation_shares@,
        }
    }
}

impl Dup for AddValidatorTx {
    fn dup(&self) -> (r: AddValidatorTx) {
        AddValidatorTx {
            base: self.base.dup(),
            validator: self.validator.dup(),
            stake_outs: self.stake_outs.dup(),
            rewards_owner: self.rewards_owner.dup(),
            delegation_shares: self.delegation_shares.dup(),
        }
    }
}

/// Whether every length of a [`AddValidatorTx`] fits its field.
#[verifier::opaque]
pub open spec fn add_validator_tx_fits(v: AddValidatorTxView) -> bool {
    &&& BaseTx::fits(v.base)
    &&& Validator::fits(v.validator)
    &&& List::<TransferableOutput>::fits(v.stake_outs)
    &&& Owner::fits(v.rewards_owner)
    &&& u32::fits(v.delegation_shares)
}

/// The fields of a [`AddValidatorTx`], in the order in which they are written.
#[verifier::opaque]
pub open spec fn add_validator_tx_ser(v: AddValidatorTxView) -> Seq<u8> {
    BaseTx::ser(v.base) + (Validator::ser(v.validator) + (List::<TransferableOutput>::ser(v.stake_outs) + (Owner::ser(v.rewards_owner) + (u32::ser(v.delegation_shares)))))
}

/// The fields of a [`AddValidatorTx`] at the start of `s`, and what follows.
#[verifier::opaque]
pub open spec fn add_validator_tx_de(s: Seq<u8>) -> Read<AddValidatorTxView> {
    match BaseTx::de(s) {
        Err(e) => Err(e),
        Ok((base, s)) =>
    match Validator::de(s) {
        Err(e) => Err(e),
        Ok((validator, s)) =>
    match List::<TransferableOutput>::de(s) {
        Err(e) => Err(e),
        Ok((stake_outs, s)) =>
    match Owner::de(s) {
        Err(e) => Err(e),
        Ok((rewards_owner, s)) =>
    match u32::de(s) {
        Err(e) => Err(e),
        Ok((delegation_shares, s)) =>
        Ok((AddValidatorTxView { base, validator, stake_outs, rewards_owner, delegation_shares }, s)),
    },},},},}
}

impl Wire for AddValidatorTx {
    open spec fn fits(v: AddValidatorTxView) -> bool {
        add_validator_tx_fits(v)
    }

    open spec fn ser(v: AddValidatorTxView) -> Seq<u8> {
        add_validator_tx_ser(v)
    }

    open spec fn de(s: Seq<u8>) -> Read<AddValidatorTxView> {
        add_validator_tx_de(s)
    }

    proof fn round_trip(v: AddValidatorTxView, t: Seq<u8>) {
        reveal(add_validator_tx_fits);
        reveal(add_validator_tx_ser);
        reveal(add_validator_tx_de);
        let r4 = u32::ser(v.delegation_shares);
        u32::round_trip(v.delegation_shares, t);
        lemma_concat(Owner::ser(v.rewards_owner), r4, t);
        Owner::round_trip(v.rewards_owner, r4 + t);
        let r3 = Owner::ser(v.rewards_owner) + r4;
        lemma_concat(List::<TransferableOutput>::ser(v.stake_outs), r3, t);
        List::<TransferableOutput>::round_trip(v.stake_outs, r3 + t);
        let r2 = List::<TransferableOutput>::ser(v.stake_outs) + r3;
        lemma_concat(Validator::ser(v.validator), r2, t);
        Validator::round_trip(v.validator, r2 + t);
        let r1 = Validator::ser(v.validator) + r2;
        lemma_concat(BaseTx::ser(v.base), r1, t);
        BaseTx::round_trip(v.base, r1 + t);
    }

    proof fn canonical(s: Seq<u8>) {
        reveal(add_validator_tx_fits);
        reveal(add_validator_tx_ser);
        reveal(add_validator_tx_de);
        if let Ok((v, t)) = Self::de(s) {
            BaseTx::canonical(s);
            let s1 = (BaseTx::de(s)->Ok_0).1;
            Validator::canonical(s1);
            let s2 = (Validator::de(s1)->Ok_0).1;
            List::<TransferableOutput>::canonical(s2);
            let s3 = (List::<TransferableOutput>::de(s2)->Ok_0).1;
            Owner::canonical(s3);
            let s4 = (Owner::de(s3)->Ok_0).1;
            u32::canonical(s4);
            let r4 = u32::ser(v.delegation_shares);
            lemma_concat(Owner::ser(v.rewards_owner), r4, t);
            let r3 = Owner::ser(v.rewards_owner) + r4;
            lemma_concat(List::<TransferableOutput>::ser(v.stake_outs), r3, t);
            let r2 = List::<TransferableOutput>::ser(v.stake_outs) + r3;
            lemma_concat(Validator::ser(v.validator), r2, t);
            let r1 = Validator::ser(v.validator) + r2;
            lemma_concat(BaseTx::ser(v.base), r1, t);
        }
    }

    fn can_write(&self) -> (r: bool) {
        proof {
            reveal(add_validator_tx_fits);
        }
        self.base.can_write() && self.validator.can_write() && self.stake_outs.can_write() && self.rewards_owner.can_write() && self.delegation_shares.can_write()
    }

    fn write(&self, out: &mut Vec<u8>) {
        proof {
            reveal(add_validator_tx_fits);
            reveal(add_validator_tx_ser);
        }
        self.base.write(out);
        self.validator.write(out);
        self.stake_outs.write(out);
        self.rewards_owner.write(out);
        self.delegation_shares.write(out);
        proof {
            let r4 = u32::ser(self.delegation_shares@);
            lemma_concat((((old(out)@ + BaseTx::ser(self.base@)) + Validator::ser(self.validator@)) + List::<TransferableOutput>::ser(self.stake_outs@)), Owner::ser(self.rewards_owner@), r4);
            let r3 = Owner::ser(self.rewards_owner@) + r4;
            lemma_concat(((old(out)@ + BaseTx::ser(self.base@)) + Validator::ser(self.validator@)), List::<TransferableOutput>::ser(self.stake_outs@), r3);
            let r2 = List::<TransferableOutput>::ser(self.stake_outs@) + r3;
            lemma_concat((old(out)@ + BaseTx::ser(self.base@)), Validator::ser(self.validator@), r2);
            let r1 = Validator::ser(self.validator@) + r2;
            lemma_concat(old(out)@, BaseTx::ser(self.base@), r1);
        }
    }

    fn read(p: &mut Reader<'_>) -> (r: Result<AddValidatorTx, CodecError>) {
        proof {
            reveal(add_validator_tx_de);
        }
        let base: BaseTx = match BaseTx::read(p) {
            Ok(x) => x,
            Err(e) => {
                return Err(e);
            },
        };
        let validator: Validator = match Validator::read(p) {
            Ok(x) => x,
            Err(e) => {
                return Err(e);
            },
        };
        let stake_outs: List<TransferableOutput> = match List::<TransferableOutput>::read(p) {
            Ok(x) => x,
            Err(e) => {
                return Err(e);
            },
        };
        let rewards_owner: Owner = match Owner::read(p) {
            Ok(x) => x,
            Err(e) => {
                return Err(e);
            },
        };
        let delegation_shares: u32 = match u32::read(p) {
            Ok(x) => x,
            Err(e) => {
                return Err(e);
            },
        };
        Ok(AddValidatorTx { base, validator, stake_outs, rewards_owner, delegation_shares })
    }
}

/// Asks for a chain of a subnet.
#[derive(Debug, PartialEq, Eq)]
pub struct CreateChainTx {
    /// What most transactions have in common.
    pub base: BaseTx,
    /// The subnet.
    pub subnet_id: Id,
    /// The name of the chain.
    pub chain_name: String,
    /// The virtual machine that the chain runs.
    pub vm_id: Id,
    /// The feature extensions that it uses.
    pub fx_ids: List<Id>,
    /// The genesis state of the chain.
    pub genesis_data: Vec<u8>,
    /// The authorization of the subnet.
    pub subnet_auth: Auth,
}

/// What a [`CreateChainTx`] holds.
#[verifier::ext_equal]
pub struct CreateChainTxView {
    /// What most transactions have in common.
    pub base: BaseTxView,
    /// The subnet.
    pub subnet_id: Seq<u8>,
    /// The name of the chain.
    pub chain_name: Seq<char>,
    /// The virtual machine that the chain runs.
    pub vm_id: Seq<u8>,
    /// The feature extensions that it uses.
    pub fx_ids: Seq<Seq<u8>>,
    /// The genesis state of the chain.
    pub genesis_data: Seq<u8>,
    /// The authorization of the subnet.
    pub subnet_auth: AuthView,
}

impl View for CreateChainTx {
    type V = CreateChainTxView;

    open spec fn view(&self) -> CreateChainTxView {
        CreateChainTxView {
            base: self.base@,
            subnet_id: self.subnet_id@,
            chain_name: self.chain_name@,
            vm_id: self.vm_id@,
            fx_ids: self.fx_ids@,
            genesis_data: self.genesis_data@,
            subnet_auth: self.subnet_auth@,
        }
    }
}

impl Dup for CreateChainTx {
    fn dup(&self) -> (r: CreateChainTx) {
        CreateChainTx {
            base: self.base.dup(),
            subnet_id: self.subnet_id.dup(),
            chain_name: self.chain_name.dup(),
            vm_id: self.vm_id.dup(),
            fx_ids: self.fx_ids.dup(),
            genesis_data: self.genesis_data.dup(),
            subnet_auth: self.subnet_auth.dup(),
        }
    }
}

/// Whether every length of a [`CreateChainTx`] fits its field.
#[verifier::opaque]
pub open spec fn create_chain_tx_fits(v: CreateChainTxView) -> bool {
    &&& BaseTx::fits(v.base)
    &&& Id::fits(v.subnet_id)
    &&& String::fits(v.chain_name)
    &&& Id::fits(v.vm_id)
    &&& List::<Id>::fits(v.fx_ids)
    &&& Vec::<u8>::fits(v.genesis_data)
    &&& Auth::fits(v.subnet_auth)
}

/// The fields of a [`CreateChainTx`], in the order in which they are written.
#[verifier::opaque]
pub open spec fn create_chain_tx_ser(v: CreateChainTxView) -> Seq<u8> {
    BaseTx::ser(v.base) + (Id::ser(v.subnet_id) + (String::ser(v.chain_name) + (Id::ser(v.vm_id) + (List::<Id>::ser(v.fx_ids) + (Vec::<u8>::ser(v.genesis_data) + (Auth::ser(v.subnet_auth)))))))
}

/// The fields of a [`CreateChainTx`] at the start of `s`, and what follows.
#[verifier::opaque]
pub open spec fn create_chain_tx_de(s: Seq<u8>) -> Read<CreateChainTxView> {
    match BaseTx::de(s) {
        Err(e) => Err(e),
        Ok((base, s)) =>
    match Id::de(s) {
        Err(e) => Err(e),
        Ok((subnet_id, s)) =>
    match String::de(s) {
        Err(e) => Err(e),
        Ok((chain_name, s)) =>
    match Id::de(s) {
        Err(e) => Err(e),
        Ok((vm_id, s)) =>
    match List::<Id>::de(s) {
        Err(e) => Err(e),
        Ok((fx_ids, s)) =>
    match Vec::<u8>::de(s) {
        Err(e) => Err(e),
        Ok((genesis_data, s)) =>
    match Auth::de(s) {
        Err(e) => Err(e),
        Ok((subnet_auth, s)) =>
        Ok((CreateChainTxView { base, subnet_id, chain_name, vm_id, fx_ids, genesis_data, subnet_auth }, s)),
    },},},},},},}
}

impl Wire for CreateChainTx {
    open spec fn fits(v: CreateChainTxView) -> bool {
        create_chain_tx_fits(v)
    }

    open spec fn ser(v: CreateChainTxView) -> Seq<u8> {
        create_chain_tx_ser(v)
    }

    open spec fn de(s: Seq<u8>) -> Read<CreateChainTxView> {
        create_chain_tx_de(s)
    }

    proof fn round_trip(v: CreateChainTxView, t: Seq<u8>) {
        reveal(create_chain_tx_fits);
        reveal(create_chain_tx_ser);
        reveal(create_chain_tx_de);
        let r6 = Auth::ser(v.subnet_auth);
        Auth::round_trip(v.subnet_auth, t);
        lemma_concat(Vec::<u8>::ser(v.genesis_data), r6, t);
        Vec::<u8>::round_trip(v.genesis_data, r6 + t);
        let r5 = Vec::<u8>::ser(v.genesis_data) + r6;
        lemma_concat(List::<Id>::ser(v.fx_ids), r5, t);
        List::<Id>::round_trip(v.fx_ids, r5 + t);
        let r4 = List::<Id>::ser(v.fx_ids) + r5;
        lemma_concat(Id::ser(v.vm_id), r4, t);
        Id::round_trip(v.vm_id, r4 + t);
        let r3 = Id::ser(v.vm_id) + r4;
        lemma_concat(String::ser(v.chain_name), r3, t);
        String::round_trip(v.chain_name, r3 + t);
        let r2 = String::ser(v.chain_name) + r3;
        lemma_concat(Id::ser(v.subnet_id), r2, t);
        Id::round_trip(v.subnet_id, r2 + t);
        let r1 = Id::ser(v.subnet_id) + r2;
        lemma_concat(BaseTx::ser(v.base), r1, t);
        BaseTx::round_trip(v.base, r1 + t);
    }

    proof fn canonical(s: Seq<u8>) {
        reveal(create_chain_tx_fits);
        reveal(create_chain_tx_ser);
        reveal(create_chain_tx_de);
        if let Ok((v, t)) = Self::de(s) {
            BaseTx::canonical(s);
            let s1 = (BaseTx::de(s)->Ok_0).1;
            Id::canonical(s1);
            let s2 = (Id::de(s1)->Ok_0).1;
            String::canonical(s2);
            let s3 = (String::de(s2)->Ok_0).1;
            Id::canonical(s3);
            let s4 = (Id::de(s3)->Ok_0).1;
            List::<Id>::canonical(s4);
            let s5 = (List::<Id>::de(s4)->Ok_0).1;
            Vec::<u8>::canonical(s5);
            let s6 = (Vec::<u8>::de(s5)->Ok_0).1;
            Auth::canonical(s6);
            let r6 = Auth::ser(v.subnet_auth);
            lemma_concat(Vec::<u8>::ser(v.genesis_data), r6, t);
            let r5 = Vec::<u8>::ser(v.genesis_data) + r6;
            lemma_concat(List::<Id>::ser(v.fx_ids), r5, t);
            let r4 = List::<Id>::ser(v.fx_ids) + r5;
            lemma_concat(Id::ser(v.vm_id), r4, t);
            let r3 = Id::ser(v.vm_id) + r4;
            lemma_concat(String::ser(v.chain_name), r3, t);
            let r2 = String::ser(v.chain_name) + r3;
            lemma_concat(Id::ser(v.subnet_id), r2, t);
            let r1 = Id::ser(v.subnet_id) + r2;
            lemma_concat(BaseTx::ser(v.base), r1, t);
        }
    }

    fn can_write(&self) -> (r: bool) {
        proof {
            reveal(create_chain_tx_fits);
        }
        self.base.can_write() && self.subnet_id.can_write() && self.chain_name.can_write() && self.vm_id.can_write() && self.fx_ids.can_write() && self.genesis_data.can_write() && self.subnet_auth.can_write()
    }

    fn write(&self, out: &mut Vec<u8>) {
        proof {
            reveal(create_chain_tx_fits);
            reveal(create_chain_tx_ser);
        }
        self.base.write(out);
        self.subnet_id.write(out);
        self.chain_name.write(out);
        self.vm_id.write(out);
        self.fx_ids.write(out);
        self.genesis_data.write(out);
        self.subnet_auth.write(out);
        proof {
            let r6 = Auth::ser(self.subnet_auth@);
            lemma_concat((((((old(out)@ + BaseTx::ser(self.base@)) + Id::ser(self.subnet_id@)) + String::ser(self.chain_name@)) + Id::ser(self.vm_id@)) + List::<Id>::ser(self.fx_ids@)), Vec::<u8>::ser(self.genesis_data@), r6);
            let r5 = Vec::<u8>::ser(self.genesis_data@) + r6;
            lemma_concat(((((old(out)@ + BaseTx::ser(self.base@)) + Id::ser(self.subnet_id@)) + String::ser(self.chain_name@)) + Id::ser(self.vm_id@)), List::<Id>::ser(self.fx_ids@), r5);
            let r4 = List::<Id>::ser(self.fx_ids@) + r5;
            lemma_concat((((old(out)@ + BaseTx::ser(self.base@)) + Id::ser(self.subnet_id@)) + String::ser(self.chain_name@)), Id::ser(self.vm_id@), r4);
            let r3 = Id::ser(self.vm_id@) + r4;
            lemma_concat(((old(out)@ + BaseTx::ser(self.base@)) + Id::ser(self.subnet_id@)), String::ser(self.chain_name@), r3);
            let r2 = String::ser(self.chain_name@) + r3;
            lemma_concat((old(out)@ + BaseTx::ser(self.base@)), Id::ser(self.subnet_id@), r2);
            let r1 = Id::ser(self.subnet_id@) + r2;
            lemma_concat(old(out)@, BaseTx::ser(self.base@), r1);
        }
    }

    fn read(p: &mut Reader<'_>) -> (r: Result<CreateChainTx, CodecError>) {
        proof {
            reveal(create_chain_tx_de);
        }
        let base: BaseTx = match BaseTx::read(p) {
            Ok(x) => x,
            Err(e) => {
                return Err(e);
            },
        };
        let subnet_id: Id = match Id::read(p) {
            Ok(x) => x,
            Err(e) => {
                return Err(e);
            },
        };
        let chain_name: String = match String::read(p) {
            Ok(x) => x,
            Err(e) => {
                return Err(e);
            },
        };
        let vm_id: Id = match Id::read(p) {
            Ok(x) => x,
            Err(e) => {
                return Err(e);
            },
        };
        let fx_ids: List<Id> = match List::<Id>::read(p) {
            Ok(x) => x,
            Err(e) => {
                return Err(e);
            },
        };
        let genesis_data: Vec<u8> = match Vec::<u8>::read(p) {
            Ok(x) => x,
            Err(e) => {
                return Err(e);
            },
        };
        let subnet_auth: Auth = match Auth::read(p) {
            Ok(x) => x,
            Err(e) => {
                return Err(e);
            },
        };
        Ok(CreateChainTx { base, subnet_id, chain_name, vm_id, fx_ids, genesis_data, subnet_auth })
    }
}

/// Asks for a subnet.
#[derive(Debug, PartialEq, Eq)]
pub struct CreateSubnetTx {
    /// What most transactions have in common.
    pub base: BaseTx,
    /// Who controls the subnet.
    pub owner: Owner,
}

/// What a [`CreateSubnetTx`] holds.
#[verifier::ext_equal]
pub struct CreateSubnetTxView {
    /// What most transactions have in common.
    pub base: BaseTxView,
    /// Who controls the subnet.
    pub owner: OwnerView,
}

impl View for CreateSubnetTx {
    type V = CreateSubnetTxView;

    open spec fn view(&self) -> CreateSubnetTxView {
        CreateSubnetTxView {
            base: self.base@,
            owner: self.owner@,
        }
    }
}

impl Dup for CreateSubnetTx {
    fn dup(&self) -> (r: CreateSubnetTx) {
        CreateSubnetTx {
            base: self.base.dup(),
            owner: self.owner.dup(),
        }
    }
}

/// Whether every length of a [`CreateSubnetTx`] fits its field.
#[verifier::opaque]
pub open spec fn create_subnet_tx_fits(v: CreateSubnetTxView) -> bool {
    &&& BaseTx::fits(v.base)
    &&& Owner::fits(v.owner)
}

/// The fields of a [`CreateSubnetTx`], in the order in which they are written.
#[verifier::opaque]
pub open spec fn create_subnet_tx_ser(v: CreateSubnetTxView) -> Seq<u8> {
    BaseTx::ser(v.base) + (Owner::ser(v.owner))
}

/// The fields of a [`CreateSubnetTx`] at the start of `s`, and what follows.
#[verifier::opaque]
pub open spec fn create_subnet_tx_de(s: Seq<u8>) -> Read<CreateSubnetTxView> {
    match BaseTx::de(s) {
        Err(e) => Err(e),
        Ok((base, s)) =>
    match Owner::de(s) {
        Err(e) => Err(e),
        Ok((owner, s)) =>
        Ok((CreateSubnetTxView { base, owner }, s)),
    },}
}

impl Wire for CreateSubnetTx {
    open spec fn fits(v: CreateSubnetTxView) -> bool {
        create_subnet_tx_fits(v)
    }

    open spec fn ser(v: CreateSubnetTxView) -> Seq<u8> {
        create_subnet_tx_ser(v)
    }

    open spec fn de(s: Seq<u8>) -> Read<CreateSubnetTxView> {
        create_subnet_tx_de(s)
    }

    proof fn round_trip(v: CreateSubnetTxView, t: Seq<u8>) {
        reveal(create_subnet_tx_fits);
        reveal(create_subnet_tx_ser);
        reveal(create_subnet_tx_de);
        let r1 = Owner::ser(v.owner);
        Owner::round_trip(v.owner, t);
        lemma_concat(BaseTx::ser(v.base), r1, t);
        BaseTx::round_trip(v.base, r1 + t);
    }

    proof fn canonical(s: Seq<u8>) {
        reveal(create_subnet_tx_fits);
        reveal(create_subnet_tx_ser);
        reveal(create_subnet_tx_de);
        if let Ok((v, t)) = Self::de(s) {
            BaseTx::canonical(s);
            let s1 = (BaseTx::de(s)->Ok_0).1;
            Owner::canonical(s1);
            let r1 = Owner::ser(v.owner);
            lemma_concat(BaseTx::ser(v.base), r1, t);
        }
    }

    fn can_write(&self) -> (r: bool) {
        proof {
            reveal(create_subnet_tx_fits);
        }
        self.base.can_write() && self.owner.can_write()
    }

    fn write(&self, out: &mut Vec<u8>) {
        proof {
            reveal(create_subnet_tx_fits);
            reveal(create_subnet_tx_ser);
        }
        self.base.write(out);
        self.owner.write(out);
        proof {
            let r1 = Owner::ser(self.owner@);
            lemma_concat(old(out)@, BaseTx::ser(self.base@), r1);
        }
    }

    fn read(p: &mut Reader<'_>) -> (r: Result<CreateSubnetTx, CodecError>) {
        proof {
            reveal(create_subnet_tx_de);
        }
        let base: BaseTx = match BaseTx::read(p) {
            Ok(x) => x,
            Err(e) => {
                return Err(e);
            },
        };
        let owner: Owner = match Owner::read(p) {
            Ok(x) => x,
            Err(e) => {
                return Err(e);
            },
        };
        Ok(CreateSubnetTx { base, owner })
    }
}

/// Proposes to reward a staker whose time is over.
#[derive(Debug, PartialEq, Eq)]
pub struct RewardValidatorTx {
    /// The transaction that made the staker.
    pub tx_id: Id,
}

/// What a [`RewardValidatorTx`] holds.
#[verifier::ext_equal]
pub struct RewardValidatorTxView {
    /// The transaction that made the staker.
    pub tx_id: Seq<u8>,
}

impl View for RewardValidatorTx {
    type V = RewardValidatorTxView;

    open spec fn view(&self) -> RewardValidatorTxView {
        RewardValidatorTxView {
            tx_id: self.tx_id@,
        }
    }
}

impl Dup for RewardValidatorTx {
    fn dup(&self) -> (r: RewardValidatorTx) {
        RewardValidatorTx {
            tx_id: self.tx_id.dup(),
        }
    }
}

/// Whether every length of a [`RewardValidatorTx`] fits its field.
#[verifier::opaque]
pub open spec fn reward_validator_tx_fits(v: RewardValidatorTxView) -> bool {
    &&& Id::fits(v.tx_id)
}

/// The fields of a [`RewardValidatorTx`], in the order in which they are written.
#[verifier::opaque]
pub open spec fn reward_validator_tx_ser(v: RewardValidatorTxView) -> Seq<u8> {
    Id::ser(v.tx_id)
}

/// The fields of a [`RewardValidatorTx`] at the start of `s`, and what follows.
#[verifier::opaque]
pub open spec fn reward_validator_tx_de(s: Seq<u8>) -> Read<RewardValidatorTxView> {
    match Id::de(s) {
        Err(e) => Err(e),
        Ok((tx_id, s)) =>
        Ok((RewardValidatorTxView { tx_id }, s)),
    }
}

impl Wire for RewardValidatorTx {
    open spec fn fits(v: RewardValidatorTxView) -> bool {
        reward_validator_tx_fits(v)
    }

    open spec fn ser(v: RewardValidatorTxView) -> Seq<u8> {
        reward_validator_tx_ser(v)
    }

    open spec fn de(s: Seq<u8>) -> Read<RewardValidatorTxView> {
        reward_validator_tx_de(s)
    }

    proof fn round_trip(v: RewardValidatorTxView, t: Seq<u8>) {
        reveal(reward_validator_tx_fits);
        reveal(reward_validator_tx_ser);
        reveal(reward_validator_tx_de);
        Id::round_trip(v.tx_id, t);
    }

    proof fn canonical(s: Seq<u8>) {
        reveal(reward_validator_tx_fits);
        reveal(reward_validator_tx_ser);
        reveal(reward_validator_tx_de);
        if let Ok((v, t)) = Self::de(s) {
            Id::canonical(s);
        }
    }

    fn can_write(&self) -> (r: bool) {
        proof {
            reveal(reward_validator_tx_fits);
        }
        self.tx_id.can_write()
    }

    fn write(&self, out: &mut Vec<u8>) {
        proof {
            reveal(reward_validator_tx_fits);
            reveal(reward_validator_tx_ser);
        }
        self.tx_id.write(out);
    }

    fn read(p: &mut Reader<'_>) -> (r: Result<RewardValidatorTx, CodecError>) {
        proof {
            reveal(reward_validator_tx_de);
        }
        let tx_id: Id = match Id::read(p) {
            Ok(x) => x,
            Err(e) => {
                return Err(e);
            },
        };
        Ok(RewardValidatorTx { tx_id })
    }
}

/// Asks for a validator of a subnet that anyone may validate.
#[derive(Debug, PartialEq, Eq)]
pub struct AddPermissionlessValidatorTx {
    /// What most transactions have in common.
    pub base: BaseTx,
    /// The validator.
    pub validator: Validator,
    /// The subnet.
    pub subnet: Id,
    /// The BLS key of the validator.
    pub signer: Signer,
    /// The outputs that are staked.
    pub stake_outs: List<TransferableOutput>,
    /// Who gets the validation reward.
    pub validator_rewards_owner: Owner,
    /// Who gets the delegation fees.
    pub delegator_rewards_owner: Owner,
    /// The share of the rewards of delegators that the validator keeps.
    pub delegation_shares: u32,
}

/// What an [`AddPermissionlessValidatorTx`] holds.
#[verifier::ext_equal]
pub struct AddPermissionlessValidatorTxView {
    /// What most transactions have in common.
    pub base: BaseTxView,
    /// The validator.
    pub validator: ValidatorView,
    /// The subnet.
    pub subnet: Seq<u8>,
    /// The BLS key of the validator.
    pub signer: SignerView,
    /// The outputs that are staked.
    pub stake_outs: Seq<TransferableOutputView>,
    /// Who gets the validation reward.
    pub validator_rewards_owner: OwnerView,
    /// Who gets the delegation fees.
    pub delegator_rewards_owner: OwnerView,
    /// The share of the rewards of delegators that the validator keeps.
    pub delegation_shares: u32,
}

impl View for AddPermissionlessValidatorTx {
    type V = AddPermissionlessValidatorTxView;

    open spec fn view(&self) -> AddPermissionlessValidatorTxView {
        AddPermissionlessValidatorTxView {
            base: self.base@,
            validator: self.validator@,
            subnet: self.subnet@,
            signer: self.signer@,
            stake_outs: self.stake_outs@,
            validator_rewards_owner: self.validator_rewards_owner@,
            delegator_rewards_owner: self.delegator_rewards_owner@,
            delegation_shares: self.delegation_shares@,
        }
    }
}

impl Dup for AddPermissionlessValidatorTx {
    fn dup(&self) -> (r: AddPermissionlessValidatorTx) {
        AddPermissionlessValidatorTx {
            base: self.base.dup(),
            validator: self.validator.dup(),
            subnet: self.subnet.dup(),
            signer: self.signer.dup(),
            stake_outs: self.stake_outs.dup(),
            validator_rewards_owner: self.validator_rewards_owner.dup(),
            delegator_rewards_owner: self.delegator_rewards_owner.dup(),
            delegation_shares: self.delegation_shares.dup(),
        }
    }
}

/// Whether every length of a [`AddPermissionlessValidatorTx`] fits its field.
#[verifier::opaque]
pub open spec fn add_permissionless_validator_tx_fits(v: AddPermissionlessValidatorTxView) -> bool {
    &&& BaseTx::fits(v.base)
    &&& Validator::fits(v.validator)
    &&& Id::fits(v.subnet)
    &&& Signer::fits(v.signer)
    &&& List::<TransferableOutput>::fits(v.stake_outs)
    &&& Owner::fits(v.validator_rewards_owner)
    &&& Owner::fits(v.delegator_rewards_owner)
    &&& u32::fits(v.delegation_shares)
}

/// The fields of a [`AddPermissionlessValidatorTx`], in the order in which they are written.
#[verifier::opaque]
pub open spec fn add_permissionless_validator_tx_ser(v: AddPermissionlessValidatorTxView) -> Seq<u8> {
    BaseTx::ser(v.base) + (Validator::ser(v.validator) + (Id::ser(v.subnet) + (Signer::ser(v.signer) + (List::<TransferableOutput>::ser(v.stake_outs) + (Owner::ser(v.validator_rewards_owner) + (Owner::ser(v.delegator_rewards_owner) + (u32::ser(v.delegation_shares))))))))
}

/// The fields of a [`AddPermissionlessValidatorTx`] at the start of `s`, and what follows.
#[verifier::opaque]
pub open spec fn add_permissionless_validator_tx_de(s: Seq<u8>) -> Read<AddPermissionlessValidatorTxView> {
    match BaseTx::de(s) {
        Err(e) => Err(e),
        Ok((base, s)) =>
    match Validator::de(s) {
        Err(e) => Err(e),
        Ok((validator, s)) =>
    match Id::de(s) {
        Err(e) => Err(e),
        Ok((subnet, s)) =>
    match Signer::de(s) {
        Err(e) => Err(e),
        Ok((signer, s)) =>
    match List::<TransferableOutput>::de(s) {
        Err(e) => Err(e),
        Ok((stake_outs, s)) =>
    match Owner::de(s) {
        Err(e) => Err(e),
        Ok((validator_rewards_owner, s)) =>
    match Owner::de(s) {
        Err(e) => Err(e),
        Ok((delegator_rewards_owner, s)) =>
    match u32::de(s) {
        Err(e) => Err(e),
        Ok((delegation_shares, s)) =>
        Ok((AddPermissionlessValidatorTxView { base, validator, subnet, signer, stake_outs, validator_rewards_owner, delegator_rewards_owner, delegation_shares }, s)),
    },},},},},},},}
}

impl Wire for AddPermissionlessValidatorTx {
    open spec fn fits(v: AddPermissionlessValidatorTxView) -> bool {
        add_permissionless_validator_tx_fits(v)
    }

    open spec fn ser(v: AddPermissionlessValidatorTxView) -> Seq<u8> {
        add_permissionless_validator_tx_ser(v)
    }

    open spec fn de(s: Seq<u8>) -> Read<AddPermissionlessValidatorTxView> {
        add_permissionless_validator_tx_de(s)
    }

    proof fn round_trip(v: AddPermissionlessValidatorTxView, t: Seq<u8>) {
        reveal(add_permissionless_validator_tx_fits);
        reveal(add_permissionless_validator_tx_ser);
        reveal(add_permissionless_validator_tx_de);
        let r7 = u32::ser(v.delegation_shares);
        u32::round_trip(v.delegation_shares, t);
        lemma_concat(Owner::ser(v.delegator_rewards_owner), r7, t);
        Owner::round_trip(v.delegator_rewards_owner, r7 + t);
        let r6 = Owner::ser(v.delegator_rewards_owner) + r7;
        lemma_concat(Owner::ser(v.validator_rewards_owner), r6, t);
        Owner::round_trip(v.validator_rewards_owner, r6 + t);
        let r5 = Owner::ser(v.validator_rewards_owner) + r6;
        lemma_concat(List::<TransferableOutput>::ser(v.stake_outs), r5, t);
        List::<TransferableOutput>::round_trip(v.stake_outs, r5 + t);
        let r4 = List::<TransferableOutput>::ser(v.stake_outs) + r5;
        lemma_concat(Signer::ser(v.signer), r4, t);
        Signer::round_trip(v.signer, r4 + t);
        let r3 = Signer::ser(v.signer) + r4;
        lemma_concat(Id::ser(v.subnet), r3, t);
        Id::round_trip(v.subnet, r3 + t);
        let r2 = Id::ser(v.subnet) + r3;
        lemma_concat(Validator::ser(v.validator), r2, t);
        Validator::round_trip(v.validator, r2 + t);
        let r1 = Validator::ser(v.validator) + r2;
        lemma_concat(BaseTx::ser(v.base), r1, t);
        BaseTx::round_trip(v.base, r1 + t);
    }

    proof fn canonical(s: Seq<u8>) {
        reveal(add_permissionless_validator_tx_fits);
        reveal(add_permissionless_validator_tx_ser);
        reveal(add_permissionless_validator_tx_de);
        if let Ok((v, t)) = Self::de(s) {
            BaseTx::canonical(s);
            let s1 = (BaseTx::de(s)->Ok_0).1;
            Validator::canonical(s1);
            let s2 = (Validator::de(s1)->Ok_0).1;
            Id::canonical(s2);
            let s3 = (Id::de(s2)->Ok_0).1;
            Signer::canonical(s3);
            let s4 = (Signer::de(s3)->Ok_0).1;
            List::<TransferableOutput>::canonical(s4);
            let s5 = (List::<TransferableOutput>::de(s4)->Ok_0).1;
            Owner::canonical(s5);
            let s6 = (Owner::de(s5)->Ok_0).1;
            Owner::canonical(s6);
            let s7 = (Owner::de(s6)->Ok_0).1;
            u32::canonical(s7);
            let r7 = u32::ser(v.delegation_shares);
            lemma_concat(Owner::ser(v.delegator_rewards_owner), r7, t);
            let r6 = Owner::ser(v.delegator_rewards_owner) + r7;
            lemma_concat(Owner::ser(v.validator_rewards_owner), r6, t);
            let r5 = Owner::ser(v.validator_rewards_owner) + r6;
            lemma_concat(List::<TransferableOutput>::ser(v.stake_outs), r5, t);
            let r4 = List::<TransferableOutput>::ser(v.stake_outs) + r5;
            lemma_concat(Signer::ser(v.signer), r4, t);
            let r3 = Signer::ser(v.signer) + r4;
            lemma_concat(Id::ser(v.subnet), r3, t);
            let r2 = Id::ser(v.subnet) + r3;
            lemma_concat(Validator::ser(v.validator), r2, t);
            let r1 = Validator::ser(v.validator) + r2;
            lemma_concat(BaseTx::ser(v.base), r1, t);
        }
    }

    fn can_write(&self) -> (r: bool) {
        proof {
            reveal(add_permissionless_validator_tx_fits);
        }
        self.base.can_write() && self.validator.can_write() && self.subnet.can_write() && self.signer.can_write() && self.stake_outs.can_write() && self.validator_rewards_owner.can_write() && self.delegator_rewards_owner.can_write() && self.delegation_shares.can_write()
    }

    fn write(&self, out: &mut Vec<u8>) {
        proof {
            reveal(add_permissionless_validator_tx_fits);
            reveal(add_permissionless_validator_tx_ser);
        }
        self.base.write(out);
        self.validator.write(out);
        self.subnet.write(out);
        self.signer.write(out);
        self.stake_outs.write(out);
        self.validator_rewards_owner.write(out);
        self.delegator_rewards_owner.write(out);
        self.delegation_shares.write(out);
        proof {
            let r7 = u32::ser(self.delegation_shares@);
            lemma_concat(((((((old(out)@ + BaseTx::ser(self.base@)) + Validator::ser(self.validator@)) + Id::ser(self.subnet@)) + Signer::ser(self.signer@)) + List::<TransferableOutput>::ser(self.stake_outs@)) + Owner::ser(self.validator_rewards_owner@)), Owner::ser(self.delegator_rewards_owner@), r7);
            let r6 = Owner::ser(self.delegator_rewards_owner@) + r7;
            lemma_concat((((((old(out)@ + BaseTx::ser(self.base@)) + Validator::ser(self.validator@)) + Id::ser(self.subnet@)) + Signer::ser(self.signer@)) + List::<TransferableOutput>::ser(self.stake_outs@)), Owner::ser(self.validator_rewards_owner@), r6);
            let r5 = Owner::ser(self.validator_rewards_owner@) + r6;
            lemma_concat(((((old(out)@ + BaseTx::ser(self.base@)) + Validator::ser(self.validator@)) + Id::ser(self.subnet@)) + Signer::ser(self.signer@)), List::<TransferableOutput>::ser(self.stake_outs@), r5);
            let r4 = List::<TransferableOutput>::ser(self.stake_outs@) + r5;
            lemma_concat((((old(out)@ + BaseTx::ser(self.base@)) + Validator::ser(self.validator@)) + Id::ser(self.subnet@)), Signer::ser(self.signer@), r4);
            let r3 = Signer::ser(self.signer@) + r4;
            lemma_concat(((old(out)@ + BaseTx::ser(self.base@)) + Validator::ser(self.validator@)), Id::ser(self.subnet@), r3);
            let r2 = Id::ser(self.subnet@) + r3;
            lemma_concat((old(out)@ + BaseTx::ser(self.base@)), Validator::ser(self.validator@), r2);
            let r1 = Validator::ser(self.validator@) + r2;
            lemma_concat(old(out)@, BaseTx::ser(self.base@), r1);
        }
    }

    fn read(p: &mut Reader<'_>) -> (r: Result<AddPermissionlessValidatorTx, CodecError>) {
        proof {
            reveal(add_permissionless_validator_tx_de);
        }
        let base: BaseTx = match BaseTx::read(p) {
            Ok(x) => x,
            Err(e) => {
                return Err(e);
            },
        };
        let validator: Validator = match Validator::read(p) {
            Ok(x) => x,
            Err(e) => {
                return Err(e);
            },
        };
        let subnet: Id = match Id::read(p) {
            Ok(x) => x,
            Err(e) => {
                return Err(e);
            },
        };
        let signer: Signer = match Signer::read(p) {
            Ok(x) => x,
            Err(e) => {
                return Err(e);
            },
        };
        let stake_outs: List<TransferableOutput> = match List::<TransferableOutput>::read(p) {
            Ok(x) => x,
            Err(e) => {
                return Err(e);
            },
        };
        let validator_rewards_owner: Owner = match Owner::read(p) {
            Ok(x) => x,
            Err(e) => {
                return Err(e);
            },
        };
        let delegator_rewards_owner: Owner = match Owner::read(p) {
            Ok(x) => x,
            Err(e) => {
                return Err(e);
            },
        };
        let delegation_shares: u32 = match u32::read(p) {
            Ok(x) => x,
            Err(e) => {
                return Err(e);
            },
        };
        Ok(AddPermissionlessValidatorTx { base, validator, subnet, signer, stake_outs, validator_rewards_owner, delegator_rewards_owner, delegation_shares })
    }
}

/// A transaction without its signatures.
#[derive(Debug, PartialEq, Eq)]
pub enum UnsignedTx {
    /// Adds a validator of the primary network.
    AddValidator(AddValidatorTx),
    /// Adds a validator of a subnet whose owner chooses them.
    AddSubnetValidator(AddSubnetValidatorTx),
    /// Adds a delegator of the primary network.
    AddDelegator(AddDelegatorTx),
    /// Creates a chain.
    CreateChain(CreateChainTx),
    /// Creates a subnet.
    CreateSubnet(CreateSubnetTx),
    /// Moves value from another chain.
    Import(ImportTx),
    /// Moves value to another chain.
    Export(ExportTx),
    /// Moves the chain's time forward.
    AdvanceTime(AdvanceTimeTx),
    /// Rewards a staker.
    RewardValidator(RewardValidatorTx),
    /// Removes a validator of a subnet whose owner chooses them.
    RemoveSubnetValidator(RemoveSubnetValidatorTx),
    /// Lets anyone validate a subnet.
    TransformSubnet(TransformSubnetTx),
    /// Adds a validator of any subnet.
    AddPermissionlessValidator(AddPermissionlessValidatorTx),
    /// Adds a delegator of any subnet.
    AddPermissionlessDelegator(AddPermissionlessDelegatorTx),
    /// Gives a subnet another owner.
    TransferSubnetOwnership(TransferSubnetOwnershipTx),
    /// Moves value.
    Base(BaseTx),
    /// Turns a subnet into an L1.
    ConvertSubnetToL1(ConvertSubnetToL1Tx),
    /// Adds a validator of an L1.
    RegisterL1Validator(RegisterL1ValidatorTx),
    /// Changes the weight of a validator of an L1.
    SetL1ValidatorWeight(SetL1ValidatorWeightTx),
    /// Pays for a validator of an L1.
    IncreaseL1ValidatorBalance(IncreaseL1ValidatorBalanceTx),
    /// Deactivates a validator of an L1.
    DisableL1Validator(DisableL1ValidatorTx),
}

/// What an [`UnsignedTx`] holds.
#[verifier::ext_equal]
pub enum UnsignedTxView {
    /// Adds a validator of the primary network.
    AddValidator(AddValidatorTxView),
    /// Adds a validator of a subnet whose owner chooses them.
    AddSubnetValidator(AddSubnetValidatorTxView),
    /// Adds a delegator of the primary network.
    AddDelegator(AddDelegatorTxView),
    /// Creates a chain.
    CreateChain(CreateChainTxView),
    /// Creates a subnet.
    CreateSubnet(CreateSubnetTxView),
    /// Moves value from another chain.
    Import(ImportTxView),
    /// Moves value to another chain.
    Export(ExportTxView),
    /// Moves the chain's time forward.
    AdvanceTime(AdvanceTimeTxView),
    /// Rewards a staker.
    RewardValidator(RewardValidatorTxView),
    /// Removes a validator of a subnet whose owner chooses them.
    RemoveSubnetValidator(RemoveSubnetValidatorTxView),
    /// Lets anyone validate a subnet.
    TransformSubnet(TransformSubnetTxView),
    /// Adds a validator of any subnet.
    AddPermissionlessValidator(AddPermissionlessValidatorTxView),
    /// Adds a delegator of any subnet.
    AddPermissionlessDelegator(AddPermissionlessDelegatorTxView),
    /// Gives a subnet another owner.
    TransferSubnetOwnership(TransferSubnetOwnershipTxView),
    /// Moves value.
    Base(BaseTxView),
    /// Turns a subnet into an L1.
    ConvertSubnetToL1(ConvertSubnetToL1TxView),
    /// Adds a validator of an L1.
    RegisterL1Validator(RegisterL1ValidatorTxView),
    /// Changes the weight of a validator of an L1.
    SetL1ValidatorWeight(SetL1ValidatorWeightTxView),
    /// Pays for a validator of an L1.
    IncreaseL1ValidatorBalance(IncreaseL1ValidatorBalanceTxView),
    /// Deactivates a validator of an L1.
    DisableL1Validator(DisableL1ValidatorTxView),
}

impl View for UnsignedTx {
    type V = UnsignedTxView;

    open spec fn view(&self) -> UnsignedTxView {
        match self {
            UnsignedTx::AddValidator(x) => UnsignedTxView::AddValidator(x@),
            UnsignedTx::AddSubnetValidator(x) => UnsignedTxView::AddSubnetValidator(x@),
            UnsignedTx::AddDelegator(x) => UnsignedTxView::AddDelegator(x@),
            UnsignedTx::CreateChain(x) => UnsignedTxView::CreateChain(x@),
            UnsignedTx::CreateSubnet(x) => UnsignedTxView::CreateSubnet(x@),
            UnsignedTx::Import(x) => UnsignedTxView::Import(x@),
            UnsignedTx::Export(x) => UnsignedTxView::Export(x@),
            UnsignedTx::AdvanceTime(x) => UnsignedTxView::AdvanceTime(x@),
            UnsignedTx::RewardValidator(x) => UnsignedTxView::RewardValidator(x@),
            UnsignedTx::RemoveSubnetValidator(x) => UnsignedTxView::RemoveSubnetValidator(x@),
            UnsignedTx::TransformSubnet(x) => UnsignedTxView::TransformSubnet(x@),
            UnsignedTx::AddPermissionlessValidator(x) => UnsignedTxView::AddPermissionlessValidator(x@),
            UnsignedTx::AddPermissionlessDelegator(x) => UnsignedTxView::AddPermissionlessDelegator(x@),
            UnsignedTx::TransferSubnetOwnership(x) => UnsignedTxView::TransferSubnetOwnership(x@),
            UnsignedTx::Base(x) => UnsignedTxView::Base(x@),
            UnsignedTx::ConvertSubnetToL1(x) => UnsignedTxView::ConvertSubnetToL1(x@),
            UnsignedTx::RegisterL1Validator(x) => UnsignedTxView::RegisterL1Validator(x@),
            UnsignedTx::SetL1ValidatorWeight(x) => UnsignedTxView::SetL1ValidatorWeight(x@),
            UnsignedTx::IncreaseL1ValidatorBalance(x) => UnsignedTxView::IncreaseL1ValidatorBalance(x@),
            UnsignedTx::DisableL1Validator(x) => UnsignedTxView::DisableL1Validator(x@),
        }
    }
}

impl Dup for UnsignedTx {
    fn dup(&self) -> (r: UnsignedTx) {
        match self {
            UnsignedTx::AddValidator(x) => UnsignedTx::AddValidator(x.dup()),
            UnsignedTx::AddSubnetValidator(x) => UnsignedTx::AddSubnetValidator(x.dup()),
            UnsignedTx::AddDelegator(x) => UnsignedTx::AddDelegator(x.dup()),
            UnsignedTx::CreateChain(x) => UnsignedTx::CreateChain(x.dup()),
            UnsignedTx::CreateSubnet(x) => UnsignedTx::CreateSubnet(x.dup()),
            UnsignedTx::Import(x) => UnsignedTx::Import(x.dup()),
            UnsignedTx::Export(x) => UnsignedTx::Export(x.dup()),
            UnsignedTx::AdvanceTime(x) => UnsignedTx::AdvanceTime(x.dup()),
            UnsignedTx::RewardValidator(x) => UnsignedTx::RewardValidator(x.dup()),
            UnsignedTx::RemoveSubnetValidator(x) => UnsignedTx::RemoveSubnetValidator(x.dup()),
            UnsignedTx::TransformSubnet(x) => UnsignedTx::TransformSubnet(x.dup()),
            UnsignedTx::AddPermissionlessValidator(x) => UnsignedTx::AddPermissionlessValidator(x.dup()),
            UnsignedTx::AddPermissionlessDelegator(x) => UnsignedTx::AddPermissionlessDelegator(x.dup()),
            UnsignedTx::TransferSubnetOwnership(x) => UnsignedTx::TransferSubnetOwnership(x.dup()),
            UnsignedTx::Base(x) => UnsignedTx::Base(x.dup()),
            UnsignedTx::ConvertSubnetToL1(x) => UnsignedTx::ConvertSubnetToL1(x.dup()),
            UnsignedTx::RegisterL1Validator(x) => UnsignedTx::RegisterL1Validator(x.dup()),
            UnsignedTx::SetL1ValidatorWeight(x) => UnsignedTx::SetL1ValidatorWeight(x.dup()),
            UnsignedTx::IncreaseL1ValidatorBalance(x) => UnsignedTx::IncreaseL1ValidatorBalance(x.dup()),
            UnsignedTx::DisableL1Validator(x) => UnsignedTx::DisableL1Validator(x.dup()),
        }
    }
}

impl UnsignedTxView {
    /// The type id in front of the value.
    pub open spec fn type_id(self) -> u32 {
        match self {
            UnsignedTxView::AddValidator(_) => 12,
            UnsignedTxView::AddSubnetValidator(_) => 13,
            UnsignedTxView::AddDelegator(_) => 14,
            UnsignedTxView::CreateChain(_) => 15,
            UnsignedTxView::CreateSubnet(_) => 16,
            UnsignedTxView::Import(_) => 17,
            UnsignedTxView::Export(_) => 18,
            UnsignedTxView::AdvanceTime(_) => 19,
            UnsignedTxView::RewardValidator(_) => 20,
            UnsignedTxView::RemoveSubnetValidator(_) => 23,
            UnsignedTxView::TransformSubnet(_) => 24,
            UnsignedTxView::AddPermissionlessValidator(_) => 25,
            UnsignedTxView::AddPermissionlessDelegator(_) => 26,
            UnsignedTxView::TransferSubnetOwnership(_) => 33,
            UnsignedTxView::Base(_) => 34,
            UnsignedTxView::ConvertSubnetToL1(_) => 35,
            UnsignedTxView::RegisterL1Validator(_) => 36,
            UnsignedTxView::SetL1ValidatorWeight(_) => 37,
            UnsignedTxView::IncreaseL1ValidatorBalance(_) => 38,
            UnsignedTxView::DisableL1Validator(_) => 39,
        }
    }
}

impl UnsignedTx {
    /// The type id in front of the value.
    pub fn codec_type_id(&self) -> (r: u32)
        ensures
            r == self@.type_id(),
    {
        match self {
            UnsignedTx::AddValidator(_) => 12,
            UnsignedTx::AddSubnetValidator(_) => 13,
            UnsignedTx::AddDelegator(_) => 14,
            UnsignedTx::CreateChain(_) => 15,
            UnsignedTx::CreateSubnet(_) => 16,
            UnsignedTx::Import(_) => 17,
            UnsignedTx::Export(_) => 18,
            UnsignedTx::AdvanceTime(_) => 19,
            UnsignedTx::RewardValidator(_) => 20,
            UnsignedTx::RemoveSubnetValidator(_) => 23,
            UnsignedTx::TransformSubnet(_) => 24,
            UnsignedTx::AddPermissionlessValidator(_) => 25,
            UnsignedTx::AddPermissionlessDelegator(_) => 26,
            UnsignedTx::TransferSubnetOwnership(_) => 33,
            UnsignedTx::Base(_) => 34,
            UnsignedTx::ConvertSubnetToL1(_) => 35,
            UnsignedTx::RegisterL1Validator(_) => 36,
            UnsignedTx::SetL1ValidatorWeight(_) => 37,
            UnsignedTx::IncreaseL1ValidatorBalance(_) => 38,
            UnsignedTx::DisableL1Validator(_) => 39,
        }
    }
}

/// Whether every length of the value fits its field.
#[verifier::opaque]
pub open spec fn unsigned_tx_fits(v: UnsignedTxView) -> bool {
    match v {
        UnsignedTxView::AddValidator(x) => AddValidatorTx::fits(x),
        UnsignedTxView::AddSubnetValidator(x) => AddSubnetValidatorTx::fits(x),
        UnsignedTxView::AddDelegator(x) => AddDelegatorTx::fits(x),
        UnsignedTxView::CreateChain(x) => CreateChainTx::fits(x),
        UnsignedTxView::CreateSubnet(x) => CreateSubnetTx::fits(x),
        UnsignedTxView::Import(x) => ImportTx::fits(x),
        UnsignedTxView::Export(x) => ExportTx::fits(x),
        UnsignedTxView::AdvanceTime(x) => AdvanceTimeTx::fits(x),
        UnsignedTxView::RewardValidator(x) => RewardValidatorTx::fits(x),
        UnsignedTxView::RemoveSubnetValidator(x) => RemoveSubnetValidatorTx::fits(x),
        UnsignedTxView::TransformSubnet(x) => TransformSubnetTx::fits(x),
        UnsignedTxView::AddPermissionlessValidator(x) => AddPermissionlessValidatorTx::fits(x),
        UnsignedTxView::AddPermissionlessDelegator(x) => AddPermissionlessDelegatorTx::fits(x),
        UnsignedTxView::TransferSubnetOwnership(x) => TransferSubnetOwnershipTx::fits(x),
        UnsignedTxView::Base(x) => BaseTx::fits(x),
        UnsignedTxView::ConvertSubnetToL1(x) => ConvertSubnetToL1Tx::fits(x),
        UnsignedTxView::RegisterL1Validator(x) => RegisterL1ValidatorTx::fits(x),
        UnsignedTxView::SetL1ValidatorWeight(x) => SetL1ValidatorWeightTx::fits(x),
        UnsignedTxView::IncreaseL1ValidatorBalance(x) => IncreaseL1ValidatorBalanceTx::fits(x),
        UnsignedTxView::DisableL1Validator(x) => DisableL1ValidatorTx::fits(x),
    }
}

/// The type id, and the value that it is the type of.
#[verifier::opaque]
pub open spec fn unsigned_tx_ser(v: UnsignedTxView) -> Seq<u8> {
    be(v.type_id() as nat, 4) + match v {
        UnsignedTxView::AddValidator(x) => AddValidatorTx::ser(x),
        UnsignedTxView::AddSubnetValidator(x) => AddSubnetValidatorTx::ser(x),
        UnsignedTxView::AddDelegator(x) => AddDelegatorTx::ser(x),
        UnsignedTxView::CreateChain(x) => CreateChainTx::ser(x),
        UnsignedTxView::CreateSubnet(x) => CreateSubnetTx::ser(x),
        UnsignedTxView::Import(x) => ImportTx::ser(x),
        UnsignedTxView::Export(x) => ExportTx::ser(x),
        UnsignedTxView::AdvanceTime(x) => AdvanceTimeTx::ser(x),
        UnsignedTxView::RewardValidator(x) => RewardValidatorTx::ser(x),
        UnsignedTxView::RemoveSubnetValidator(x) => RemoveSubnetValidatorTx::ser(x),
        UnsignedTxView::TransformSubnet(x) => TransformSubnetTx::ser(x),
        UnsignedTxView::AddPermissionlessValidator(x) => AddPermissionlessValidatorTx::ser(x),
        UnsignedTxView::AddPermissionlessDelegator(x) => AddPermissionlessDelegatorTx::ser(x),
        UnsignedTxView::TransferSubnetOwnership(x) => TransferSubnetOwnershipTx::ser(x),
        UnsignedTxView::Base(x) => BaseTx::ser(x),
        UnsignedTxView::ConvertSubnetToL1(x) => ConvertSubnetToL1Tx::ser(x),
        UnsignedTxView::RegisterL1Validator(x) => RegisterL1ValidatorTx::ser(x),
        UnsignedTxView::SetL1ValidatorWeight(x) => SetL1ValidatorWeightTx::ser(x),
        UnsignedTxView::IncreaseL1ValidatorBalance(x) => IncreaseL1ValidatorBalanceTx::ser(x),
        UnsignedTxView::DisableL1Validator(x) => DisableL1ValidatorTx::ser(x),
    }
}

/// The value of the type `id` at the start of `s`, and what follows: of the types
/// from 12 to 16.
#[verifier::opaque]
pub open spec fn kinds_12_to_16(id: nat, s: Seq<u8>) -> Read<UnsignedTxView> {
    if id == 12 {
        match AddValidatorTx::de(s) {
            Err(e) => Err(e),
            Ok((x, t)) => Ok((UnsignedTxView::AddValidator(x), t)),
        }
    } else if id == 13 {
        match AddSubnetValidatorTx::de(s) {
            Err(e) => Err(e),
            Ok((x, t)) => Ok((UnsignedTxView::AddSubnetValidator(x), t)),
        }
    } else if id == 14 {
        match AddDelegatorTx::de(s) {
            Err(e) => Err(e),
            Ok((x, t)) => Ok((UnsignedTxView::AddDelegator(x), t)),
        }
    } else if id == 15 {
        match CreateChainTx::de(s) {
            Err(e) => Err(e),
            Ok((x, t)) => Ok((UnsignedTxView::CreateChain(x), t)),
        }
    } else if id == 16 {
        match CreateSubnetTx::de(s) {
            Err(e) => Err(e),
            Ok((x, t)) => Ok((UnsignedTxView::CreateSubnet(x), t)),
        }
    } else {
        Err(CodecError::UnknownTypeId)
    }
}

/// The value of the type `id` at the start of `s`, and what follows: of the types
/// from 17 to 23.
#[verifier::opaque]
pub open spec fn kinds_17_to_23(id: nat, s: Seq<u8>) -> Read<UnsignedTxView> {
    if id == 17 {
        match ImportTx::de(s) {
            Err(e) => Err(e),
            Ok((x, t)) => Ok((UnsignedTxView::Import(x), t)),
        }
    } else if id == 18 {
        match ExportTx::de(s) {
            Err(e) => Err(e),
            Ok((x, t)) => Ok((UnsignedTxView::Export(x), t)),
        }
    } else if id == 19 {
        match AdvanceTimeTx::de(s) {
            Err(e) => Err(e),
            Ok((x, t)) => Ok((UnsignedTxView::AdvanceTime(x), t)),
        }
    } else if id == 20 {
        match RewardValidatorTx::de(s) {
            Err(e) => Err(e),
            Ok((x, t)) => Ok((UnsignedTxView::RewardValidator(x), t)),
        }
    } else if id == 23 {
        match RemoveSubnetValidatorTx::de(s) {
            Err(e) => Err(e),
            Ok((x, t)) => Ok((UnsignedTxView::RemoveSubnetValidator(x), t)),
        }
    } else {
        Err(CodecError::UnknownTypeId)
    }
}

/// The value of the type `id` at the start of `s`, and what follows: of the types
/// from 24 to 34.
#[verifier::opaque]
pub open spec fn kinds_24_to_34(id: nat, s: Seq<u8>) -> Read<UnsignedTxView> {
    if id == 24 {
        match TransformSubnetTx::de(s) {
            Err(e) => Err(e),
            Ok((x, t)) => Ok((UnsignedTxView::TransformSubnet(x), t)),
        }
    } else if id == 25 {
        match AddPermissionlessValidatorTx::de(s) {
            Err(e) => Err(e),
            Ok((x, t)) => Ok((UnsignedTxView::AddPermissionlessValidator(x), t)),
        }
    } else if id == 26 {
        match AddPermissionlessDelegatorTx::de(s) {
            Err(e) => Err(e),
            Ok((x, t)) => Ok((UnsignedTxView::AddPermissionlessDelegator(x), t)),
        }
    } else if id == 33 {
        match TransferSubnetOwnershipTx::de(s) {
            Err(e) => Err(e),
            Ok((x, t)) => Ok((UnsignedTxView::TransferSubnetOwnership(x), t)),
        }
    } else if id == 34 {
        match BaseTx::de(s) {
            Err(e) => Err(e),
            Ok((x, t)) => Ok((UnsignedTxView::Base(x), t)),
        }
    } else {
        Err(CodecError::UnknownTypeId)
    }
}

/// The value of the type `id` at the start of `s`, and what follows: of the types
/// from 35 to 39.
#[verifier::opaque]
pub open spec fn kinds_35_to_39(id: nat, s: Seq<u8>) -> Read<UnsignedTxView> {
    if id == 35 {
        match ConvertSubnetToL1Tx::de(s) {
            Err(e) => Err(e),
            Ok((x, t)) => Ok((UnsignedTxView::ConvertSubnetToL1(x), t)),
        }
    } else if id == 36 {
        match RegisterL1ValidatorTx::de(s) {
            Err(e) => Err(e),
            Ok((x, t)) => Ok((UnsignedTxView::RegisterL1Validator(x), t)),
        }
    } else if id == 37 {
        match SetL1ValidatorWeightTx::de(s) {
            Err(e) => Err(e),
            Ok((x, t)) => Ok((UnsignedTxView::SetL1ValidatorWeight(x), t)),
        }
    } else if id == 38 {
        match IncreaseL1ValidatorBalanceTx::de(s) {
            Err(e) => Err(e),
            Ok((x, t)) => Ok((UnsignedTxView::IncreaseL1ValidatorBalance(x), t)),
        }
    } else if id == 39 {
        match DisableL1ValidatorTx::de(s) {
            Err(e) => Err(e),
            Ok((x, t)) => Ok((UnsignedTxView::DisableL1Validator(x), t)),
        }
    } else {
        Err(CodecError::UnknownTypeId)
    }
}

/// The value at the start of `s`, and what follows.
#[verifier::opaque]
pub open spec fn unsigned_tx_de(s: Seq<u8>) -> Read<UnsignedTxView> {
    match rd_be(s, 4) {
        None => Err(CodecError::InsufficientLength),
        Some((id, s)) => if id <= 16 {
            kinds_12_to_16(id, s)
        } else if id <= 23 {
            kinds_17_to_23(id, s)
        } else if id <= 34 {
            kinds_24_to_34(id, s)
        } else {
            kinds_35_to_39(id, s)
        },
    }
}

proof fn lemma_kinds_12_to_16(id: nat, s: Seq<u8>)
    ensures
        kinds_12_to_16(id, s) matches Ok((v, t)) ==> unsigned_tx_fits(v) && be(id, 4) + s
            == unsigned_tx_ser(v) + t,
{
    reveal(kinds_12_to_16);
    reveal(unsigned_tx_fits);
    reveal(unsigned_tx_ser);
    if let Ok((v, t)) = kinds_12_to_16(id, s) {
        match v {
            UnsignedTxView::AddValidator(x) => {
                AddValidatorTx::canonical(s);
                lemma_concat(be(12, 4), AddValidatorTx::ser(x), t);
            },
            UnsignedTxView::AddSubnetValidator(x) => {
                AddSubnetValidatorTx::canonical(s);
                lemma_concat(be(13, 4), AddSubnetValidatorTx::ser(x), t);
            },
            UnsignedTxView::AddDelegator(x) => {
                AddDelegatorTx::canonical(s);
                lemma_concat(be(14, 4), AddDelegatorTx::ser(x), t);
            },
            UnsignedTxView::CreateChain(x) => {
                CreateChainTx::canonical(s);
                lemma_concat(be(15, 4), CreateChainTx::ser(x), t);
            },
            UnsignedTxView::CreateSubnet(x) => {
                CreateSubnetTx::canonical(s);
                lemma_concat(be(16, 4), CreateSubnetTx::ser(x), t);
            },
            _ => {},
        }
    }
}

proof fn lemma_kinds_17_to_23(id: nat, s: Seq<u8>)
    ensures
        kinds_17_to_23(id, s) matches Ok((v, t)) ==> unsigned_tx_fits(v) && be(id, 4) + s
            == unsigned_tx_ser(v) + t,
{
    reveal(kinds_17_to_23);
    reveal(unsigned_tx_fits);
    reveal(unsigned_tx_ser);
    if let Ok((v, t)) = kinds_17_to_23(id, s) {
        match v {
            UnsignedTxView::Import(x) => {
                ImportTx::canonical(s);
                lemma_concat(be(17, 4), ImportTx::ser(x), t);
            },
            UnsignedTxView::Export(x) => {
                ExportTx::canonical(s);
                lemma_concat(be(18, 4), ExportTx::ser(x), t);
            },
            UnsignedTxView::AdvanceTime(x) => {
                AdvanceTimeTx::canonical(s);
                lemma_concat(be(19, 4), AdvanceTimeTx::ser(x), t);
            },
            UnsignedTxView::RewardValidator(x) => {
                RewardValidatorTx::canonical(s);
                lemma_concat(be(20, 4), RewardValidatorTx::ser(x), t);
            },
            UnsignedTxView::RemoveSubnetValidator(x) => {
                RemoveSubnetValidatorTx::canonical(s);
                lemma_concat(be(23, 4), RemoveSubnetValidatorTx::ser(x), t);
            },
            _ => {},
        }
    }
}

proof fn lemma_kinds_24_to_34(id: nat, s: Seq<u8>)
    ensures
        kinds_24_to_34(id, s) matches Ok((v, t)) ==> unsigned_tx_fits(v) && be(id, 4) + s
            == unsigned_tx_ser(v) + t,
{
    reveal(kinds_24_to_34);
    reveal(unsigned_tx_fits);
    reveal(unsigned_tx_ser);
    if let Ok((v, t)) = kinds_24_to_34(id, s) {
        match v {
            UnsignedTxView::TransformSubnet(x) => {
                TransformSubnetTx::canonical(s);
                lemma_concat(be(24, 4), TransformSubnetTx::ser(x), t);
            },
            UnsignedTxView::AddPermissionlessValidator(x) => {
                AddPermissionlessValidatorTx::canonical(s);
                lemma_concat(be(25, 4), AddPermissionlessValidatorTx::ser(x), t);
            },
            UnsignedTxView::AddPermissionlessDelegator(x) => {
                AddPermissionlessDelegatorTx::canonical(s);
                lemma_concat(be(26, 4), AddPermissionlessDelegatorTx::ser(x), t);
            },
            UnsignedTxView::TransferSubnetOwnership(x) => {
                TransferSubnetOwnershipTx::canonical(s);
                lemma_concat(be(33, 4), TransferSubnetOwnershipTx::ser(x), t);
            },
            UnsignedTxView::Base(x) => {
                BaseTx::canonical(s);
                lemma_concat(be(34, 4), BaseTx::ser(x), t);
            },
            _ => {},
        }
    }
}

proof fn lemma_kinds_35_to_39(id: nat, s: Seq<u8>)
    ensures
        kinds_35_to_39(id, s) matches Ok((v, t)) ==> unsigned_tx_fits(v) && be(id, 4) + s
            == unsigned_tx_ser(v) + t,
{
    reveal(kinds_35_to_39);
    reveal(unsigned_tx_fits);
    reveal(unsigned_tx_ser);
    if let Ok((v, t)) = kinds_35_to_39(id, s) {
        match v {
            UnsignedTxView::ConvertSubnetToL1(x) => {
                ConvertSubnetToL1Tx::canonical(s);
                lemma_concat(be(35, 4), ConvertSubnetToL1Tx::ser(x), t);
            },
            UnsignedTxView::RegisterL1Validator(x) => {
                RegisterL1ValidatorTx::canonical(s);
                lemma_concat(be(36, 4), RegisterL1ValidatorTx::ser(x), t);
            },
            UnsignedTxView::SetL1ValidatorWeight(x) => {
                SetL1ValidatorWeightTx::canonical(s);
                lemma_concat(be(37, 4), SetL1ValidatorWeightTx::ser(x), t);
            },
            UnsignedTxView::IncreaseL1ValidatorBalance(x) => {
                IncreaseL1ValidatorBalanceTx::canonical(s);
                lemma_concat(be(38, 4), IncreaseL1ValidatorBalanceTx::ser(x), t);
            },
            UnsignedTxView::DisableL1Validator(x) => {
                DisableL1ValidatorTx::canonical(s);
                lemma_concat(be(39, 4), DisableL1ValidatorTx::ser(x), t);
            },
            _ => {},
        }
    }
}

fn read_kinds_12_to_16(p: &mut Reader<'_>, id: u32) -> (r: Result<UnsignedTx, CodecError>)
    ensures
        match kinds_12_to_16(id as nat, old(p).rest()) {
            Ok((v, t)) => r is Ok && r->Ok_0@ == v && final(p).rest() == t,
            Err(e) => r is Err && r->Err_0 == e,
        },
{
    proof {
        reveal(kinds_12_to_16);
    }
    if id == 12 {
        match AddValidatorTx::read(p) {
            Ok(x) => Ok(UnsignedTx::AddValidator(x)),
            Err(e) => Err(e),
        }
    } else if id == 13 {
        match AddSubnetValidatorTx::read(p) {
            Ok(x) => Ok(UnsignedTx::AddSubnetValidator(x)),
            Err(e) => Err(e),
        }
    } else if id == 14 {
        match AddDelegatorTx::read(p) {
            Ok(x) => Ok(UnsignedTx::AddDelegator(x)),
            Err(e) => Err(e),
        }
    } else if id == 15 {
        match CreateChainTx::read(p) {
            Ok(x) => Ok(UnsignedTx::CreateChain(x)),
            Err(e) => Err(e),
        }
    } else if id == 16 {
        match CreateSubnetTx::read(p) {
            Ok(x) => Ok(UnsignedTx::CreateSubnet(x)),
            Err(e) => Err(e),
        }
    } else {
        Err(CodecError::UnknownTypeId)
    }
}

fn read_kinds_17_to_23(p: &mut Reader<'_>, id: u32) -> (r: Result<UnsignedTx, CodecError>)
    ensures
        match kinds_17_to_23(id as nat, old(p).rest()) {
            Ok((v, t)) => r is Ok && r->Ok_0@ == v && final(p).rest() == t,
            Err(e) => r is Err && r->Err_0 == e,
        },
{
    proof {
        reveal(kinds_17_to_23);
    }
    if id == 17 {
        match ImportTx::read(p) {
            Ok(x) => Ok(UnsignedTx::Import(x)),
            Err(e) => Err(e),
        }
    } else if id == 18 {
        match ExportTx::read(p) {
            Ok(x) => Ok(UnsignedTx::Export(x)),
            Err(e) => Err(e),
        }
    } else if id == 19 {
        match AdvanceTimeTx::read(p) {
            Ok(x) => Ok(UnsignedTx::AdvanceTime(x)),
            Err(e) => Err(e),
        }
    } else if id == 20 {
        match RewardValidatorTx::read(p) {
            Ok(x) => Ok(UnsignedTx::RewardValidator(x)),
            Err(e) => Err(e),
        }
    } else if id == 23 {
        match RemoveSubnetValidatorTx::read(p) {
            Ok(x) => Ok(UnsignedTx::RemoveSubnetValidator(x)),
            Err(e) => Err(e),
        }
    } else {
        Err(CodecError::UnknownTypeId)
    }
}

fn read_kinds_24_to_34(p: &mut Reader<'_>, id: u32) -> (r: Result<UnsignedTx, CodecError>)
    ensures
        match kinds_24_to_34(id as nat, old(p).rest()) {
            Ok((v, t)) => r is Ok && r->Ok_0@ == v && final(p).rest() == t,
            Err(e) => r is Err && r->Err_0 == e,
        },
{
    proof {
        reveal(kinds_24_to_34);
    }
    if id == 24 {
        match TransformSubnetTx::read(p) {
            Ok(x) => Ok(UnsignedTx::TransformSubnet(x)),
            Err(e) => Err(e),
        }
    } else if id == 25 {
        match AddPermissionlessValidatorTx::read(p) {
            Ok(x) => Ok(UnsignedTx::AddPermissionlessValidator(x)),
            Err(e) => Err(e),
        }
    } else if id == 26 {
        match AddPermissionlessDelegatorTx::read(p) {
            Ok(x) => Ok(UnsignedTx::AddPermissionlessDelegator(x)),
            Err(e) => Err(e),
        }
    } else if id == 33 {
        match TransferSubnetOwnershipTx::read(p) {
            Ok(x) => Ok(UnsignedTx::TransferSubnetOwnership(x)),
            Err(e) => Err(e),
        }
    } else if id == 34 {
        match BaseTx::read(p) {
            Ok(x) => Ok(UnsignedTx::Base(x)),
            Err(e) => Err(e),
        }
    } else {
        Err(CodecError::UnknownTypeId)
    }
}

fn read_kinds_35_to_39(p: &mut Reader<'_>, id: u32) -> (r: Result<UnsignedTx, CodecError>)
    ensures
        match kinds_35_to_39(id as nat, old(p).rest()) {
            Ok((v, t)) => r is Ok && r->Ok_0@ == v && final(p).rest() == t,
            Err(e) => r is Err && r->Err_0 == e,
        },
{
    proof {
        reveal(kinds_35_to_39);
    }
    if id == 35 {
        match ConvertSubnetToL1Tx::read(p) {
            Ok(x) => Ok(UnsignedTx::ConvertSubnetToL1(x)),
            Err(e) => Err(e),
        }
    } else if id == 36 {
        match RegisterL1ValidatorTx::read(p) {
            Ok(x) => Ok(UnsignedTx::RegisterL1Validator(x)),
            Err(e) => Err(e),
        }
    } else if id == 37 {
        match SetL1ValidatorWeightTx::read(p) {
            Ok(x) => Ok(UnsignedTx::SetL1ValidatorWeight(x)),
            Err(e) => Err(e),
        }
    } else if id == 38 {
        match IncreaseL1ValidatorBalanceTx::read(p) {
            Ok(x) => Ok(UnsignedTx::IncreaseL1ValidatorBalance(x)),
            Err(e) => Err(e),
        }
    } else if id == 39 {
        match DisableL1ValidatorTx::read(p) {
            Ok(x) => Ok(UnsignedTx::DisableL1Validator(x)),
            Err(e) => Err(e),
        }
    } else {
        Err(CodecError::UnknownTypeId)
    }
}

impl Wire for UnsignedTx {
    open spec fn fits(v: UnsignedTxView) -> bool {
        unsigned_tx_fits(v)
    }

    open spec fn ser(v: UnsignedTxView) -> Seq<u8> {
        unsigned_tx_ser(v)
    }

    open spec fn de(s: Seq<u8>) -> Read<UnsignedTxView> {
        unsigned_tx_de(s)
    }

    proof fn round_trip(v: UnsignedTxView, t: Seq<u8>) {
        reveal(unsigned_tx_fits);
        reveal(unsigned_tx_ser);
        reveal(unsigned_tx_de);
        reveal(kinds_12_to_16);
        reveal(kinds_17_to_23);
        reveal(kinds_24_to_34);
        reveal(kinds_35_to_39);
        lemma_pow256();
        match v {
            UnsignedTxView::AddValidator(x) => {
                lemma_rd_be(12, 4, AddValidatorTx::ser(x) + t);
                lemma_concat(be(12, 4), AddValidatorTx::ser(x), t);
                AddValidatorTx::round_trip(x, t);
            },
            UnsignedTxView::AddSubnetValidator(x) => {
                lemma_rd_be(13, 4, AddSubnetValidatorTx::ser(x) + t);
                lemma_concat(be(13, 4), AddSubnetValidatorTx::ser(x), t);
                AddSubnetValidatorTx::round_trip(x, t);
            },
            UnsignedTxView::AddDelegator(x) => {
                lemma_rd_be(14, 4, AddDelegatorTx::ser(x) + t);
                lemma_concat(be(14, 4), AddDelegatorTx::ser(x), t);
                AddDelegatorTx::round_trip(x, t);
            },
            UnsignedTxView::CreateChain(x) => {
                lemma_rd_be(15, 4, CreateChainTx::ser(x) + t);
                lemma_concat(be(15, 4), CreateChainTx::ser(x), t);
                CreateChainTx::round_trip(x, t);
            },
            UnsignedTxView::CreateSubnet(x) => {
                lemma_rd_be(16, 4, CreateSubnetTx::ser(x) + t);
                lemma_concat(be(16, 4), CreateSubnetTx::ser(x), t);
                CreateSubnetTx::round_trip(x, t);
            },
            UnsignedTxView::Import(x) => {
                lemma_rd_be(17, 4, ImportTx::ser(x) + t);
                lemma_concat(be(17, 4), ImportTx::ser(x), t);
                ImportTx::round_trip(x, t);
            },
            UnsignedTxView::Export(x) => {
                lemma_rd_be(18, 4, ExportTx::ser(x) + t);
                lemma_concat(be(18, 4), ExportTx::ser(x), t);
                ExportTx::round_trip(x, t);
            },
            UnsignedTxView::AdvanceTime(x) => {
                lemma_rd_be(19, 4, AdvanceTimeTx::ser(x) + t);
                lemma_concat(be(19, 4), AdvanceTimeTx::ser(x), t);
                AdvanceTimeTx::round_trip(x, t);
            },
            UnsignedTxView::RewardValidator(x) => {
                lemma_rd_be(20, 4, RewardValidatorTx::ser(x) + t);
                lemma_concat(be(20, 4), RewardValidatorTx::ser(x), t);
                RewardValidatorTx::round_trip(x, t);
            },
            UnsignedTxView::RemoveSubnetValidator(x) => {
                lemma_rd_be(23, 4, RemoveSubnetValidatorTx::ser(x) + t);
                lemma_concat(be(23, 4), RemoveSubnetValidatorTx::ser(x), t);
                RemoveSubnetValidatorTx::round_trip(x, t);
            },
            UnsignedTxView::TransformSubnet(x) => {
                lemma_rd_be(24, 4, TransformSubnetTx::ser(x) + t);
                lemma_concat(be(24, 4), TransformSubnetTx::ser(x), t);
                TransformSubnetTx::round_trip(x, t);
            },
            UnsignedTxView::AddPermissionlessValidator(x) => {
                lemma_rd_be(25, 4, AddPermissionlessValidatorTx::ser(x) + t);
                lemma_concat(be(25, 4), AddPermissionlessValidatorTx::ser(x), t);
                AddPermissionlessValidatorTx::round_trip(x, t);
            },
            UnsignedTxView::AddPermissionlessDelegator(x) => {
                lemma_rd_be(26, 4, AddPermissionlessDelegatorTx::ser(x) + t);
                lemma_concat(be(26, 4), AddPermissionlessDelegatorTx::ser(x), t);
                AddPermissionlessDelegatorTx::round_trip(x, t);
            },
            UnsignedTxView::TransferSubnetOwnership(x) => {
                lemma_rd_be(33, 4, TransferSubnetOwnershipTx::ser(x) + t);
                lemma_concat(be(33, 4), TransferSubnetOwnershipTx::ser(x), t);
                TransferSubnetOwnershipTx::round_trip(x, t);
            },
            UnsignedTxView::Base(x) => {
                lemma_rd_be(34, 4, BaseTx::ser(x) + t);
                lemma_concat(be(34, 4), BaseTx::ser(x), t);
                BaseTx::round_trip(x, t);
            },
            UnsignedTxView::ConvertSubnetToL1(x) => {
                lemma_rd_be(35, 4, ConvertSubnetToL1Tx::ser(x) + t);
                lemma_concat(be(35, 4), ConvertSubnetToL1Tx::ser(x), t);
                ConvertSubnetToL1Tx::round_trip(x, t);
            },
            UnsignedTxView::RegisterL1Validator(x) => {
                lemma_rd_be(36, 4, RegisterL1ValidatorTx::ser(x) + t);
                lemma_concat(be(36, 4), RegisterL1ValidatorTx::ser(x), t);
                RegisterL1ValidatorTx::round_trip(x, t);
            },
            UnsignedTxView::SetL1ValidatorWeight(x) => {
                lemma_rd_be(37, 4, SetL1ValidatorWeightTx::ser(x) + t);
                lemma_concat(be(37, 4), SetL1ValidatorWeightTx::ser(x), t);
                SetL1ValidatorWeightTx::round_trip(x, t);
            },
            UnsignedTxView::IncreaseL1ValidatorBalance(x) => {
                lemma_rd_be(38, 4, IncreaseL1ValidatorBalanceTx::ser(x) + t);
                lemma_concat(be(38, 4), IncreaseL1ValidatorBalanceTx::ser(x), t);
                IncreaseL1ValidatorBalanceTx::round_trip(x, t);
            },
            UnsignedTxView::DisableL1Validator(x) => {
                lemma_rd_be(39, 4, DisableL1ValidatorTx::ser(x) + t);
                lemma_concat(be(39, 4), DisableL1ValidatorTx::ser(x), t);
                DisableL1ValidatorTx::round_trip(x, t);
            },
        }
    }

    proof fn canonical(s: Seq<u8>) {
        reveal(unsigned_tx_de);
        lemma_rd_be_sound(s, 4);
        if let Some((id, u)) = rd_be(s, 4) {
            lemma_kinds_12_to_16(id, u);
            lemma_kinds_17_to_23(id, u);
            lemma_kinds_24_to_34(id, u);
            lemma_kinds_35_to_39(id, u);
        }
    }

    fn can_write(&self) -> (r: bool) {
        proof {
            reveal(unsigned_tx_fits);
        }
        match self {
            UnsignedTx::AddValidator(x) => x.can_write(),
            UnsignedTx::AddSubnetValidator(x) => x.can_write(),
            UnsignedTx::AddDelegator(x) => x.can_write(),
            UnsignedTx::CreateChain(x) => x.can_write(),
            UnsignedTx::CreateSubnet(x) => x.can_write(),
            UnsignedTx::Import(x) => x.can_write(),
            UnsignedTx::Export(x) => x.can_write(),
            UnsignedTx::AdvanceTime(x) => x.can_write(),
            UnsignedTx::RewardValidator(x) => x.can_write(),
            UnsignedTx::RemoveSubnetValidator(x) => x.can_write(),
            UnsignedTx::TransformSubnet(x) => x.can_write(),
            UnsignedTx::AddPermissionlessValidator(x) => x.can_write(),
            UnsignedTx::AddPermissionlessDelegator(x) => x.can_write(),
            UnsignedTx::TransferSubnetOwnership(x) => x.can_write(),
            UnsignedTx::Base(x) => x.can_write(),
            UnsignedTx::ConvertSubnetToL1(x) => x.can_write(),
            UnsignedTx::RegisterL1Validator(x) => x.can_write(),
            UnsignedTx::SetL1ValidatorWeight(x) => x.can_write(),
            UnsignedTx::IncreaseL1ValidatorBalance(x) => x.can_write(),
            UnsignedTx::DisableL1Validator(x) => x.can_write(),
        }
    }

    fn write(&self, out: &mut Vec<u8>) {
        proof {
            reveal(unsigned_tx_fits);
            reveal(unsigned_tx_ser);
        }
        push_u32(out, self.codec_type_id());
        match self {
            UnsignedTx::AddValidator(x) => {
                x.write(out);
                proof {
                    lemma_concat(old(out)@, be(12, 4), AddValidatorTx::ser(x@));
                }
            },
            UnsignedTx::AddSubnetValidator(x) => {
                x.write(out);
                proof {
                    lemma_concat(old(out)@, be(13, 4), AddSubnetValidatorTx::ser(x@));
                }
            },
            UnsignedTx::AddDelegator(x) => {
                x.write(out);
                proof {
                    lemma_concat(old(out)@, be(14, 4), AddDelegatorTx::ser(x@));
                }
            },
            UnsignedTx::CreateChain(x) => {
                x.write(out);
                proof {
                    lemma_concat(old(out)@, be(15, 4), CreateChainTx::ser(x@));
                }
            },
            UnsignedTx::CreateSubnet(x) => {
                x.write(out);
                proof {
                    lemma_concat(old(out)@, be(16, 4), CreateSubnetTx::ser(x@));
                }
            },
            UnsignedTx::Import(x) => {
                x.write(out);
                proof {
                    lemma_concat(old(out)@, be(17, 4), ImportTx::ser(x@));
                }
            },
            UnsignedTx::Export(x) => {
                x.write(out);
                proof {
                    lemma_concat(old(out)@, be(18, 4), ExportTx::ser(x@));
                }
            },
            UnsignedTx::AdvanceTime(x) => {
                x.write(out);
                proof {
                    lemma_concat(old(out)@, be(19, 4), AdvanceTimeTx::ser(x@));
                }
            },
            UnsignedTx::RewardValidator(x) => {
                x.write(out);
                proof {
                    lemma_concat(old(out)@, be(20, 4), RewardValidatorTx::ser(x@));
                }
            },
            UnsignedTx::RemoveSubnetValidator(x) => {
                x.write(out);
                proof {
                    lemma_concat(old(out)@, be(23, 4), RemoveSubnetValidatorTx::ser(x@));
                }
            },
            UnsignedTx::TransformSubnet(x) => {
                x.write(out);
                proof {
                    lemma_concat(old(out)@, be(24, 4), TransformSubnetTx::ser(x@));
                }
            },
            UnsignedTx::AddPermissionlessValidator(x) => {
                x.write(out);
                proof {
                    lemma_concat(old(out)@, be(25, 4), AddPermissionlessValidatorTx::ser(x@));
                }
            },
            UnsignedTx::AddPermissionlessDelegator(x) => {
                x.write(out);
                proof {
                    lemma_concat(old(out)@, be(26, 4), AddPermissionlessDelegatorTx::ser(x@));
                }
            },
            UnsignedTx::TransferSubnetOwnership(x) => {
                x.write(out);
                proof {
                    lemma_concat(old(out)@, be(33, 4), TransferSubnetOwnershipTx::ser(x@));
                }
            },
            UnsignedTx::Base(x) => {
                x.write(out);
                proof {
                    lemma_concat(old(out)@, be(34, 4), BaseTx::ser(x@));
                }
            },
            UnsignedTx::ConvertSubnetToL1(x) => {
                x.write(out);
                proof {
                    lemma_concat(old(out)@, be(35, 4), ConvertSubnetToL1Tx::ser(x@));
                }
            },
            UnsignedTx::RegisterL1Validator(x) => {
                x.write(out);
                proof {
                    lemma_concat(old(out)@, be(36, 4), RegisterL1ValidatorTx::ser(x@));
                }
            },
            UnsignedTx::SetL1ValidatorWeight(x) => {
                x.write(out);
                proof {
                    lemma_concat(old(out)@, be(37, 4), SetL1ValidatorWeightTx::ser(x@));
                }
            },
            UnsignedTx::IncreaseL1ValidatorBalance(x) => {
                x.write(out);
                proof {
                    lemma_concat(old(out)@, be(38, 4), IncreaseL1ValidatorBalanceTx::ser(x@));
                }
            },
            UnsignedTx::DisableL1Validator(x) => {
                x.write(out);
                proof {
                    lemma_concat(old(out)@, be(39, 4), DisableL1ValidatorTx::ser(x@));
                }
            },
        }
    }

    fn read(p: &mut Reader<'_>) -> (r: Result<UnsignedTx, CodecError>) {
        proof {
            reveal(unsigned_tx_de);
        }
        match p.take_u32() {
            Some(id) => if id <= 16 {
                read_kinds_12_to_16(p, id)
            } else if id <= 23 {
                read_kinds_17_to_23(p, id)
            } else if id <= 34 {
                read_kinds_24_to_34(p, id)
            } else {
                read_kinds_35_to_39(p, id)
            },
            None => Err(CodecError::InsufficientLength),
        }
    }
}

/// A signature that the signer's key can be recovered from.
#[derive(Clone, Copy, Debug, PartialEq, Eq)]
pub struct Sig {
    /// The signature's bytes.
    pub bytes: [u8; 65],
}

impl View for Sig {
    type V = Seq<u8>;

    open spec fn view(&self) -> Seq<u8> {
        self.bytes@
    }
}

impl Dup for Sig {
    fn dup(&self) -> (r: Sig) {
        *self
    }
}

impl Wire for Sig {
    open spec fn fits(v: Seq<u8>) -> bool {
        v.len() == 65
    }

    open spec fn ser(v: Seq<u8>) -> Seq<u8> {
        v
    }

    open spec fn de(s: Seq<u8>) -> Read<Seq<u8>> {
        de_fixed(s, 65)
    }

    proof fn round_trip(v: Seq<u8>, t: Seq<u8>) {
        lemma_rd_fixed(v, t);
    }

    proof fn canonical(s: Seq<u8>) {
        lemma_rd_fixed_sound(s, 65);
    }

    fn can_write(&self) -> (r: bool) {
        true
    }

    fn write(&self, out: &mut Vec<u8>) {
        push_fixed(out, self.bytes.as_slice());
    }

    fn read(p: &mut Reader<'_>) -> (r: Result<Sig, CodecError>) {
        match p.take(65) {
            Some(s) => {
                let mut bytes: [u8; 65] = [0u8; 65];
                let mut i: usize = 0;
                while i < 65
                    invariant
                        i <= 65,
                        s@.len() == 65,
                        forall|j: int| 0 <= j < i ==> bytes@[j] == s@[j],
                    decreases 65 - i,
                {
                    bytes[i] = s[i];
                    i += 1;
                }
                assert(bytes@ =~= s@);
                Ok(Sig { bytes })
            },
            None => Err(CodecError::InsufficientLength),
        }
    }
}

/// The signatures for one input.
#[derive(Debug, PartialEq, Eq)]
pub struct SigList {
    /// The signatures.
    pub sigs: List<Sig>,
}

/// What a [`SigList`] holds.
#[verifier::ext_equal]
pub struct SigListView {
    /// The signatures.
    pub sigs: Seq<Seq<u8>>,
}

impl View for SigList {
    type V = SigListView;

    open spec fn view(&self) -> SigListView {
        SigListView {
            sigs: self.sigs@,
        }
    }
}

impl Dup for SigList {
    fn dup(&self) -> (r: SigList) {
        SigList {
            sigs: self.sigs.dup(),
        }
    }
}

/// Whether every length of a [`SigList`] fits its field.
#[verifier::opaque]
pub open spec fn sig_list_fits(v: SigListView) -> bool {
    &&& List::<Sig>::fits(v.sigs)
}

/// The fields of a [`SigList`], in the order in which they are written.
#[verifier::opaque]
pub open spec fn sig_list_ser(v: SigListView) -> Seq<u8> {
    List::<Sig>::ser(v.sigs)
}

/// The fields of a [`SigList`] at the start of `s`, and what follows.
#[verifier::opaque]
pub open spec fn sig_list_de(s: Seq<u8>) -> Read<SigListView> {
    match List::<Sig>::de(s) {
        Err(e) => Err(e),
        Ok((sigs, s)) =>
        Ok((SigListView { sigs }, s)),
    }
}

impl Wire for SigList {
    open spec fn fits(v: SigListView) -> bool {
        sig_list_fits(v)
    }

    open spec fn ser(v: SigListView) -> Seq<u8> {
        sig_list_ser(v)
    }

    open spec fn de(s: Seq<u8>) -> Read<SigListView> {
        sig_list_de(s)
    }

    proof fn round_trip(v: SigListView, t: Seq<u8>) {
        reveal(sig_list_fits);
        reveal(sig_list_ser);
        reveal(sig_list_de);
        List::<Sig>::round_trip(v.sigs, t);
    }

    proof fn canonical(s: Seq<u8>) {
        reveal(sig_list_fits);
        reveal(sig_list_ser);
        reveal(sig_list_de);
        if let Ok((v, t)) = Self::de(s) {
            List::<Sig>::canonical(s);
        }
    }

    fn can_write(&self) -> (r: bool) {
        proof {
            reveal(sig_list_fits);
        }
        self.sigs.can_write()
    }

    fn write(&self, out: &mut Vec<u8>) {
        proof {
            reveal(sig_list_fits);
            reveal(sig_list_ser);
        }
        self.sigs.write(out);
    }

    fn read(p: &mut Reader<'_>) -> (r: Result<SigList, CodecError>) {
        proof {
            reveal(sig_list_de);
        }
        let sigs: List<Sig> = match List::<Sig>::read(p) {
            Ok(x) => x,
            Err(e) => {
                return Err(e);
            },
        };
        Ok(SigList { sigs })
    }
}

/// What an input is signed with.
#[derive(Debug, PartialEq, Eq)]
pub enum Credential {
    /// Signatures by keys.
    Secp256k1(SigList),
}

/// What a [`Credential`] holds.
#[verifier::ext_equal]
pub enum CredentialView {
    /// Signatures by keys.
    Secp256k1(SigListView),
}

impl View for Credential {
    type V = CredentialView;

    open spec fn view(&self) -> CredentialView {
        match self {
            Credential::Secp256k1(x) => CredentialView::Secp256k1(x@),
        }
    }
}

impl Dup for Credential {
    fn dup(&self) -> (r: Credential) {
        match self {
            Credential::Secp256k1(x) => Credential::Secp256k1(x.dup()),
        }
    }
}

impl CredentialView {
    /// The type id in front of the value.
    pub open spec fn type_id(self) -> u32 {
        match self {
            CredentialView::Secp256k1(_) => 9,
        }
    }
}

impl Credential {
    /// The type id in front of the value.
    pub fn codec_type_id(&self) -> (r: u32)
        ensures
            r == self@.type_id(),
    {
        match self {
            Credential::Secp256k1(_) => 9,
        }
    }
}

/// Whether every length of the value fits its field.
#[verifier::opaque]
pub open spec fn credential_fits(v: CredentialView) -> bool {
    match v {
        CredentialView::Secp256k1(x) => SigList::fits(x),
    }
}

/// The type id, and the value that it is the type of.
#[verifier::opaque]
pub open spec fn credential_ser(v: CredentialView) -> Seq<u8> {
    be(v.type_id() as nat, 4) + match v {
        CredentialView::Secp256k1(x) => SigList::ser(x),
    }
}

/// The value at the start of `s`, and what follows.
#[verifier::opaque]
pub open spec fn credential_de(s: Seq<u8>) -> Read<CredentialView> {
    match rd_be(s, 4) {
        None => Err(CodecError::InsufficientLength),
        Some((id, s)) => 
        if id == 9 {
            match SigList::de(s) {
                Err(e) => Err(e),
                Ok((x, t)) => Ok((CredentialView::Secp256k1(x), t)),
            }
        } else 
        {
            Err(CodecError::UnknownTypeId)
        },
    }
}

impl Wire for Credential {
    open spec fn fits(v: CredentialView) -> bool {
        credential_fits(v)
    }

    open spec fn ser(v: CredentialView) -> Seq<u8> {
        credential_ser(v)
    }

    open spec fn de(s: Seq<u8>) -> Read<CredentialView> {
        credential_de(s)
    }

    proof fn round_trip(v: CredentialView, t: Seq<u8>) {
        reveal(credential_fits);
        reveal(credential_ser);
        reveal(credential_de);
        lemma_pow256();
        match v {
            CredentialView::Secp256k1(x) => {
                lemma_rd_be(9, 4, SigList::ser(x) + t);
                lemma_concat(be(9, 4), SigList::ser(x), t);
                SigList::round_trip(x, t);
            },
        }
    }

    proof fn canonical(s: Seq<u8>) {
        reveal(credential_fits);
        reveal(credential_ser);
        reveal(credential_de);
        lemma_rd_be_sound(s, 4);
        if let Ok((v, t)) = Self::de(s) {
            let u = (rd_be(s, 4)->0).1;
            match v {
                CredentialView::Secp256k1(x) => {
                    SigList::canonical(u);
                    lemma_concat(be(9, 4), SigList::ser(x), t);
                },
            }
        }
    }

    fn can_write(&self) -> (r: bool) {
        proof {
            reveal(credential_fits);
        }
        match self {
            Credential::Secp256k1(x) => x.can_write(),
        }
    }

    fn write(&self, out: &mut Vec<u8>) {
        proof {
            reveal(credential_fits);
            reveal(credential_ser);
        }
        push_u32(out, self.codec_type_id());
        match self {
            Credential::Secp256k1(x) => {
                x.write(out);
                proof {
                    lemma_concat(old(out)@, be(9, 4), SigList::ser(x@));
                }
            },
        }
    }

    fn read(p: &mut Reader<'_>) -> (r: Result<Credential, CodecError>) {
        proof {
            reveal(credential_de);
        }
        let id: u32 = match p.take_u32() {
            Some(id) => id,
            None => {
                return Err(CodecError::InsufficientLength);
            },
        };
        if id == 9 {
            match SigList::read(p) {
                Ok(x) => Ok(Credential::Secp256k1(x)),
                Err(e) => Err(e),
            }
        }
        else {
            Err(CodecError::UnknownTypeId)
        }
    }
}

} // verus!
