//! Transactions that delegate stake to a validator.
use vstd::prelude::*;

use crate::codec::{lemma_concat, CodecError, Reader};
use crate::collections::ordmap::Dup;
use crate::ids::Id;
use crate::txs::components::{BaseTx, BaseTxView, Owner, OwnerView, TransferableOutput, TransferableOutputView};
use crate::txs::validator::{Validator, ValidatorView};
use crate::wire::{List, Read, Wire};

verus! {

/// Asks for a delegator of a validator of the primary network.
#[derive(Debug, PartialEq, Eq)]
pub struct AddDelegatorTx {
    /// What most transactions have in common.
    pub base: BaseTx,
    /// The validator, with the weight that is delegated to it.
    pub validator: Validator,
    /// The outputs that are staked.
    pub stake_outs: List<TransferableOutput>,
    /// Who gets the reward.
    pub delegation_rewards_owner: Owner,
}

/// What an [`AddDelegatorTx`] holds.
#[verifier::ext_equal]
pub struct AddDelegatorTxView {
    /// What most transactions have in common.
    pub base: BaseTxView,
    /// The validator, with the weight that is delegated to it.
    pub validator: ValidatorView,
    /// The outputs that are staked.
    pub stake_outs: Seq<TransferableOutputView>,
    /// Who gets the reward.
    pub delegation_rewards_owner: OwnerView,
}

impl View for AddDelegatorTx {
    type V = AddDelegatorTxView;

    open spec fn view(&self) -> AddDelegatorTxView {
        AddDelegatorTxView {
            base: self.base@,
            validator: self.validator@,
            stake_outs: self.stake_outs@,
            delegation_rewards_owner: self.delegation_rewards_owner@,
        }
    }
}

impl Dup for AddDelegatorTx {
    fn dup(&self) -> (r: AddDelegatorTx) {
        AddDelegatorTx {
            base: self.base.dup(),
            validator: self.validator.dup(),
            stake_outs: self.stake_outs.dup(),
            delegation_rewards_owner: self.delegation_rewards_owner.dup(),
        }
    }
}

/// Whether every length of a [`AddDelegatorTx`] fits its field.
#[verifier::opaque]
pub open spec fn add_delegator_tx_fits(v: AddDelegatorTxView) -> bool {
    &&& BaseTx::fits(v.base)
    &&& Validator::fits(v.validator)
    &&& List::<TransferableOutput>::fits(v.stake_outs)
    &&& Owner::fits(v.delegation_rewards_owner)
}

/// The fields of a [`AddDelegatorTx`], in the order in which they are written.
#[verifier::opaque]
pub open spec fn add_delegator_tx_ser(v: AddDelegatorTxView) -> Seq<u8> {
    BaseTx::ser(v.base) + (Validator::ser(v.validator) + (List::<TransferableOutput>::ser(v.stake_outs) + (Owner::ser(v.delegation_rewards_owner))))
}

/// The fields of a [`AddDelegatorTx`] at the start of `s`, and what follows.
#[verifier::opaque]
pub open spec fn add_delegator_tx_de(s: Seq<u8>) -> Read<AddDelegatorTxView> {
    match BaseTx::de(s) {
        Err(e) => Err(e),
        Ok((base, s)) =>
    match Validator::de(s) {
        Err(e) => Err(e),
        Ok((validator, s)) =>
    match List::<TransferableOutput>::de(s) {
        Err(e) => Err(e),
        Ok((stake_outs, s)) =>
    match Owner::de(s) {
        Err(e) => Err(e),
        Ok((delegation_rewards_owner, s)) =>
        Ok((AddDelegatorTxView { base, validator, stake_outs, delegation_rewards_owner }, s)),
    },},},}
}

impl Wire for AddDelegatorTx {
    open spec fn fits(v: AddDelegatorTxView) -> bool {
        add_delegator_tx_fits(v)
    }

    open spec fn ser(v: AddDelegatorTxView) -> Seq<u8> {
        add_delegator_tx_ser(v)
    }

    open spec fn de(s: Seq<u8>) -> Read<AddDelegatorTxView> {
        add_delegator_tx_de(s)
    }

    proof fn round_trip(v: AddDelegatorTxView, t: Seq<u8>) {
        reveal(add_delegator_tx_fits);
        reveal(add_delegator_tx_ser);
        reveal(add_delegator_tx_de);
        let r3 = Owner::ser(v.delegation_rewards_owner);
        Owner::round_trip(v.delegation_rewards_owner, t);
        lemma_concat(List::<TransferableOutput>::ser(v.stake_outs), r3, t);
        List::<TransferableOutput>::round_trip(v.stake_outs, r3 + t);
        let r2 = List::<TransferableOutput>::ser(v.stake_outs) + r3;
        lemma_concat(Validator::ser(v.validator), r2, t);
        Validator::round_trip(v.validator, r2 + t);
        let r1 = Validator::ser(v.validator) + r2;
        lemma_concat(BaseTx::ser(v.base), r1, t);
        BaseTx::round_trip(v.base, r1 + t);
    }

    proof fn canonical(s: Seq<u8>) {
        reveal(add_delegator_tx_fits);
        reveal(add_delegator_tx_ser);
        reveal(add_delegator_tx_de);
        if let Ok((v, t)) = Self::de(s) {
            BaseTx::canonical(s);
            let s1 = (BaseTx::de(s)->Ok_0).1;
            Validator::canonical(s1);
            let s2 = (Validator::de(s1)->Ok_0).1;
            List::<TransferableOutput>::canonical(s2);
            let s3 = (List::<TransferableOutput>::de(s2)->Ok_0).1;
            Owner::canonical(s3);
            let r3 = Owner::ser(v.delegation_rewards_owner);
            lemma_concat(List::<TransferableOutput>::ser(v.stake_outs), r3, t);
            let r2 = List::<TransferableOutput>::ser(v.stake_outs) + r3;
            lemma_concat(Validator::ser(v.validator), r2, t);
            let r1 = Validator::ser(v.validator) + r2;
            lemma_concat(BaseTx::ser(v.base), r1, t);
        }
    }

    fn can_write(&self) -> (r: bool) {
        proof {
            reveal(add_delegator_tx_fits);
        }
        self.base.can_write() && self.validator.can_write() && self.stake_outs.can_write() && self.delegation_rewards_owner.can_write()
    }

    fn write(&self, out: &mut Vec<u8>) {
        proof {
            reveal(add_delegator_tx_fits);
            reveal(add_delegator_tx_ser);
        }
        self.base.write(out);
        self.validator.write(out);
        self.stake_outs.write(out);
        self.delegation_rewards_owner.write(out);
        proof {
            let r3 = Owner::ser(self.delegation_rewards_owner@);
            lemma_concat(((old(out)@ + BaseTx::ser(self.base@)) + Validator::ser(self.validator@)), List::<TransferableOutput>::ser(self.stake_outs@), r3);
            let r2 = List::<TransferableOutput>::ser(self.stake_outs@) + r3;
            lemma_concat((old(out)@ + BaseTx::ser(self.base@)), Validator::ser(self.validator@), r2);
            let r1 = Validator::ser(self.validator@) + r2;
            lemma_concat(old(out)@, BaseTx::ser(self.base@), r1);
        }
    }

    fn read(p: &mut Reader<'_>) -> (r: Result<AddDelegatorTx, CodecError>) {
        proof {
            reveal(add_delegator_tx_de);
        }
        let base: BaseTx = match BaseTx::read(p) {
            Ok(x) => x,
            Err(e) => {
                return Err(e);
            },
        };
        let validator: Validator = match Validator::read(p) {
            Ok(x) => x,
            Err(e) => {
                return Err(e);
            },
        };
        let stake_outs: List<TransferableOutput> = match List::<TransferableOutput>::read(p) {
            Ok(x) => x,
            Err(e) => {
                return Err(e);
            },
        };
        let delegation_rewards_owner: Owner = match Owner::read(p) {
            Ok(x) => x,
            Err(e) => {
                return Err(e);
            },
        };
        Ok(AddDelegatorTx { base, validator, stake_outs, delegation_rewards_owner })
    }
}

/// Asks for a delegator of a validator of a subnet that anyone may validate.
#[derive(Debug, PartialEq, Eq)]
pub struct AddPermissionlessDelegatorTx {
    /// What most transactions have in common.
    pub base: BaseTx,
    /// The validator, with the weight that is delegated to it.
    pub validator: Validator,
    /// The subnet.
    pub subnet: Id,
    /// The outputs that are staked.
    pub stake_outs: List<TransferableOutput>,
    /// Who gets the reward.
    pub delegation_rewards_owner: Owner,
}

/// What an [`AddPermissionlessDelegatorTx`] holds.
#[verifier::ext_equal]
pub struct AddPermissionlessDelegatorTxView {
    /// What most transactions have in common.
    pub base: BaseTxView,
    /// The validator, with the weight that is delegated to it.
    pub validator: ValidatorView,
    /// The subnet.
    pub subnet: Seq<u8>,
    /// The outputs that are staked.
    pub stake_outs: Seq<TransferableOutputView>,
    /// Who gets the reward.
    pub delegation_rewards_owner: OwnerView,
}

impl View for AddPermissionlessDelegatorTx {
    type V = AddPermissionlessDelegatorTxView;

    open spec fn view(&self) -> AddPermissionlessDelegatorTxView {
        AddPermissionlessDelegatorTxView {
            base: self.base@,
            validator: self.validator@,
            subnet: self.subnet@,
            stake_outs: self.stake_outs@,
            delegation_rewards_owner: self.delegation_rewards_owner@,
        }
    }
}

impl Dup for AddPermissionlessDelegatorTx {
    fn dup(&self) -> (r: AddPermissionlessDelegatorTx) {
        AddPermissionlessDelegatorTx {
            base: self.base.dup(),
            validator: self.validator.dup(),
            subnet: self.subnet.dup(),
            stake_outs: self.stake_outs.dup(),
            delegation_rewards_owner: self.delegation_rewards_owner.dup(),
        }
    }
}

/// Whether every length of a [`AddPermissionlessDelegatorTx`] fits its field.
#[verifier::opaque]
pub open spec fn add_permissionless_delegator_tx_fits(v: AddPermissionlessDelegatorTxView) -> bool {
    &&& BaseTx::fits(v.base)
    &&& Validator::fits(v.validator)
    &&& Id::fits(v.subnet)
    &&& List::<TransferableOutput>::fits(v.stake_outs)
    &&& Owner::fits(v.delegation_rewards_owner)
}

/// The fields of a [`AddPermissionlessDelegatorTx`], in the order in which they are written.
#[verifier::opaque]
pub open spec fn add_permissionless_delegator_tx_ser(v: AddPermissionlessDelegatorTxView) -> Seq<u8> {
    BaseTx::ser(v.base) + (Validator::ser(v.validator) + (Id::ser(v.subnet) + (List::<TransferableOutput>::ser(v.stake_outs) + (Owner::ser(v.delegation_rewards_owner)))))
}

/// The fields of a [`AddPermissionlessDelegatorTx`] at the start of `s`, and what follows.
#[verifier::opaque]
pub open spec fn add_permissionless_delegator_tx_de(s: Seq<u8>) -> Read<AddPermissionlessDelegatorTxView> {
    match BaseTx::de(s) {
        Err(e) => Err(e),
        Ok((base, s)) =>
    match Validator::de(s) {
        Err(e) => Err(e),
        Ok((validator, s)) =>
    match Id::de(s) {
        Err(e) => Err(e),
        Ok((subnet, s)) =>
    match List::<TransferableOutput>::de(s) {
        Err(e) => Err(e),
        Ok((stake_outs, s)) =>
    match Owner::de(s) {
        Err(e) => Err(e),
        Ok((delegation_rewards_owner, s)) =>
        Ok((AddPermissionlessDelegatorTxView { base, validator, subnet, stake_outs, delegation_rewards_owner }, s)),
    },},},},}
}

impl Wire for AddPermissionlessDelegatorTx {
    open spec fn fits(v: AddPermissionlessDelegatorTxView) -> bool {
        add_permissionless_delegator_tx_fits(v)
    }

    open spec fn ser(v: AddPermissionlessDelegatorTxView) -> Seq<u8> {
        add_permissionless_delegator_tx_ser(v)
    }

    open spec fn de(s: Seq<u8>) -> Read<AddPermissionlessDelegatorTxView> {
        add_permissionless_delegator_tx_de(s)
    }

    proof fn round_trip(v: AddPermissionlessDelegatorTxView, t: Seq<u8>) {
        reveal(add_permissionless_delegator_tx_fits);
        reveal(add_permissionless_delegator_tx_ser);
        reveal(add_permissionless_delegator_tx_de);
        let r4 = Owner::ser(v.delegation_rewards_owner);
        Owner::round_trip(v.delegation_rewards_owner, t);
        lemma_concat(List::<TransferableOutput>::ser(v.stake_outs), r4, t);
        List::<TransferableOutput>::round_trip(v.stake_outs, r4 + t);
        let r3 = List::<TransferableOutput>::ser(v.stake_outs) + r4;
        lemma_concat(Id::ser(v.subnet), r3, t);
        Id::round_trip(v.subnet, r3 + t);
        let r2 = Id::ser(v.subnet) + r3;
        lemma_concat(Validator::ser(v.validator), r2, t);
        Validator::round_trip(v.validator, r2 + t);
        let r1 = Validator::ser(v.validator) + r2;
        lemma_concat(BaseTx::ser(v.base), r1, t);
        BaseTx::round_trip(v.base, r1 + t);
    }

    proof fn canonical(s: Seq<u8>) {
        reveal(add_permissionless_delegator_tx_fits);
        reveal(add_permissionless_delegator_tx_ser);
        reveal(add_permissionless_delegator_tx_de);
        if let Ok((v, t)) = Self::de(s) {
            BaseTx::canonical(s);
            let s1 = (BaseTx::de(s)->Ok_0).1;
            Validator::canonical(s1);
            let s2 = (Validator::de(s1)->Ok_0).1;
            Id::canonical(s2);
            let s3 = (Id::de(s2)->Ok_0).1;
            List::<TransferableOutput>::canonical(s3);
            let s4 = (List::<TransferableOutput>::de(s3)->Ok_0).1;
            Owner::canonical(s4);
            let r4 = Owner::ser(v.delegation_rewards_owner);
            lemma_concat(List::<TransferableOutput>::ser(v.stake_outs), r4, t);
            let r3 = List::<TransferableOutput>::ser(v.stake_outs) + r4;
            lemma_concat(Id::ser(v.subnet), r3, t);
            let r2 = Id::ser(v.subnet) + r3;
            lemma_concat(Validator::ser(v.validator), r2, t);
            let r1 = Validator::ser(v.validator) + r2;
            lemma_concat(BaseTx::ser(v.base), r1, t);
        }
    }

    fn can_write(&self) -> (r: bool) {
        proof {
            reveal(add_permissionless_delegator_tx_fits);
        }
        self.base.can_write() && self.validator.can_write() && self.subnet.can_write() && self.stake_outs.can_write() && self.delegation_rewards_owner.can_write()
    }

    fn write(&self, out: &mut Vec<u8>) {
        proof {
            reveal(add_permissionless_delegator_tx_fits);
            reveal(add_permissionless_delegator_tx_ser);
        }
        self.base.write(out);
        self.validator.write(out);
        self.subnet.write(out);
        self.stake_outs.write(out);
        self.delegation_rewards_owner.write(out);
        proof {
            let r4 = Owner::ser(self.delegation_rewards_owner@);
            lemma_concat((((old(out)@ + BaseTx::ser(self.base@)) + Validator::ser(self.validator@)) + Id::ser(self.subnet@)), List::<TransferableOutput>::ser(self.stake_outs@), r4);
            let r3 = List::<TransferableOutput>::ser(self.stake_outs@) + r4;
            lemma_concat(((old(out)@ + BaseTx::ser(self.base@)) + Validator::ser(self.validator@)), Id::ser(self.subnet@), r3);
            let r2 = Id::ser(self.subnet@) + r3;
            lemma_concat((old(out)@ + BaseTx::ser(self.base@)), Validator::ser(self.validator@), r2);
            let r1 = Validator::ser(self.validator@) + r2;
            lemma_concat(old(out)@, BaseTx::ser(self.base@), r1);
        }
    }

    fn read(p: &mut Reader<'_>) -> (r: Result<AddPermissionlessDelegatorTx, CodecError>) {
        proof {
            reveal(add_permissionless_delegator_tx_de);
        }
        let base: BaseTx = match BaseTx::read(p) {
            Ok(x) => x,
            Err(e) => {
                return Err(e);
            },
        };
        let validator: Validator = match Validator::read(p) {
            Ok(x) => x,
            Err(e) => {
                return Err(e);
            },
        };
        let subnet: Id = match Id::read(p) {
            Ok(x) => x,
            Err(e) => {
                return Err(e);
            },
        };
        let stake_outs: List<TransferableOutput> = match List::<TransferableOutput>::read(p) {
            Ok(x) => x,
            Err(e) => {
                return Err(e);
            },
        };
        let delegation_rewards_owner: Owner = match Owner::read(p) {
            Ok(x) => x,
            Err(e) => {
                return Err(e);
            },
        };
        Ok(AddPermissionlessDelegatorTx { base, validator, subnet, stake_outs, delegation_rewards_owner })
    }
}

} // verus!
