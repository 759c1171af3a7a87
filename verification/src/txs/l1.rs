//! Transactions that turn subnets into L1s, and change their validators.
use vstd::prelude::*;

use crate::codec::{lemma_concat, CodecError, Reader};
use crate::collections::ordmap::Dup;
use crate::ids::{Id, ShortId};
use crate::signer::{BlsSignature, ProofOfPossession, ProofOfPossessionView};
use crate::txs::components::{Auth, AuthView, BaseTx, BaseTxView};
use crate::wire::{List, Read, Wire};

verus! {

/// Who may act for an L1 validator.
#[derive(Debug, PartialEq, Eq)]
pub struct L1Owner {
    /// How many of the addresses must sign.
    pub threshold: u32,
    /// The addresses.
    pub addresses: List<ShortId>,
}

/// What a [`L1Owner`] holds.
#[verifier::ext_equal]
pub struct L1OwnerView {
    /// How many of the addresses must sign.
    pub threshold: u32,
    /// The addresses.
    pub addresses: Seq<Seq<u8>>,
}

impl View for L1Owner {
    type V = L1OwnerView;

    open spec fn view(&self) -> L1OwnerView {
        L1OwnerView {
            threshold: self.threshold@,
            addresses: self.addresses@,
        }
    }
}

impl Dup for L1Owner {
    fn dup(&self) -> (r: L1Owner) {
        L1Owner {
            threshold: self.threshold.dup(),
            addresses: self.addresses.dup(),
        }
    }
}

/// Whether every length of a [`L1Owner`] fits its field.
#[verifier::opaque]
pub open spec fn l1_owner_fits(v: L1OwnerView) -> bool {
    &&& u32::fits(v.threshold)
    &&& List::<ShortId>::fits(v.addresses)
}

/// The fields of a [`L1Owner`], in the order in which they are written.
#[verifier::opaque]
pub open spec fn l1_owner_ser(v: L1OwnerView) -> Seq<u8> {
    u32::ser(v.threshold) + (List::<ShortId>::ser(v.addresses))
}

/// The fields of a [`L1Owner`] at the start of `s`, and what follows.
#[verifier::opaque]
pub open spec fn l1_owner_de(s: Seq<u8>) -> Read<L1OwnerView> {
    match u32::de(s) {
        Err(e) => Err(e),
        Ok((threshold, s)) =>
    match List::<ShortId>::de(s) {
        Err(e) => Err(e),
        Ok((addresses, s)) =>
        Ok((L1OwnerView { threshold, addresses }, s)),
    },}
}

impl Wire for L1Owner {
    open spec fn fits(v: L1OwnerView) -> bool {
        l1_owner_fits(v)
    }

    open spec fn ser(v: L1OwnerView) -> Seq<u8> {
        l1_owner_ser(v)
    }

    open spec fn de(s: Seq<u8>) -> Read<L1OwnerView> {
        l1_owner_de(s)
    }

    proof fn round_trip(v: L1OwnerView, t: Seq<u8>) {
        reveal(l1_owner_fits);
        reveal(l1_owner_ser);
        reveal(l1_owner_de);
        let r1 = List::<ShortId>::ser(v.addresses);
        List::<ShortId>::round_trip(v.addresses, t);
        lemma_concat(u32::ser(v.threshold), r1, t);
        u32::round_trip(v.threshold, r1 + t);
    }

    proof fn canonical(s: Seq<u8>) {
        reveal(l1_owner_fits);
        reveal(l1_owner_ser);
        reveal(l1_owner_de);
        if let Ok((v, t)) = Self::de(s) {
            u32::canonical(s);
            let s1 = (u32::de(s)->Ok_0).1;
            List::<ShortId>::canonical(s1);
            let r1 = List::<ShortId>::ser(v.addresses);
            lemma_concat(u32::ser(v.threshold), r1, t);
        }
    }

    fn can_write(&self) -> (r: bool) {
        proof {
            reveal(l1_owner_fits);
        }
        self.threshold.can_write() && self.addresses.can_write()
    }

    fn write(&self, out: &mut Vec<u8>) {
        proof {
            reveal(l1_owner_fits);
            reveal(l1_owner_ser);
        }
        self.threshold.write(out);
        self.addresses.write(out);
        proof {
            let r1 = List::<ShortId>::ser(self.addresses@);
            lemma_concat(old(out)@, u32::ser(self.threshold@), r1);
        }
    }

    fn read(p: &mut Reader<'_>) -> (r: Result<L1Owner, CodecError>) {
        proof {
            reveal(l1_owner_de);
        }
        let threshold: u32 = match u32::read(p) {
            Ok(x) => x,
            Err(e) => {
                return Err(e);
            },
        };
        let addresses: List<ShortId> = match List::<ShortId>::read(p) {
            Ok(x) => x,
            Err(e) => {
                return Err(e);
            },
        };
        Ok(L1Owner { threshold, addresses })
    }
}

/// A validator that an L1 starts with.
#[derive(Debug, PartialEq, Eq)]
pub struct ConvertSubnetToL1Validator {
    /// The node.
    pub node_id: Vec<u8>,
    /// Its weight.
    pub weight: u64,
    /// What is paid for it ahead.
    pub balance: u64,
    /// Its BLS key, and the proof that it has it.
    pub signer: ProofOfPossession,
    /// Who gets what is left of the balance.
    pub remaining_balance_owner: L1Owner,
    /// Who may deactivate it.
    pub deactivation_owner: L1Owner,
}

/// What a [`ConvertSubnetToL1Validator`] holds.
#[verifier::ext_equal]
pub struct ConvertSubnetToL1ValidatorView {
    /// The node.
    pub node_id: Seq<u8>,
    /// Its weight.
    pub weight: u64,
    /// What is paid for it ahead.
    pub balance: u64,
    /// Its BLS key, and the proof that it has it.
    pub signer: ProofOfPossessionView,
    /// Who gets what is left of the balance.
    pub remaining_balance_owner: L1OwnerView,
    /// Who may deactivate it.
    pub deactivation_owner: L1OwnerView,
}

impl View for ConvertSubnetToL1Validator {
    type V = ConvertSubnetToL1ValidatorView;

    open spec fn view(&self) -> ConvertSubnetToL1ValidatorView {
        ConvertSubnetToL1ValidatorView {
            node_id: self.node_id@,
            weight: self.weight@,
            balance: self.balance@,
            signer: self.signer@,
            remaining_balance_owner: self.remaining_balance_owner@,
            deactivation_owner: self.deactivation_owner@,
        }
    }
}

impl Dup for ConvertSubnetToL1Validator {
    fn dup(&self) -> (r: ConvertSubnetToL1Validator) {
        ConvertSubnetToL1Validator {
            node_id: self.node_id.dup(),
            weight: self.weight.dup(),
            balance: self.balance.dup(),
            signer: self.signer.dup(),
            remaining_balance_owner: self.remaining_balance_owner.dup(),
            deactivation_owner: self.deactivation_owner.dup(),
        }
    }
}

/// Whether every length of a [`ConvertSubnetToL1Validator`] fits its field.
#[verifier::opaque]
pub open spec fn convert_subnet_to_l1_validator_fits(v: ConvertSubnetToL1ValidatorView) -> bool {
    &&& Vec::<u8>::fits(v.node_id)
    &&& u64::fits(v.weight)
    &&& u64::fits(v.balance)
    &&& ProofOfPossession::fits(v.signer)
    &&& L1Owner::fits(v.remaining_balance_owner)
    &&& L1Owner::fits(v.deactivation_owner)
}

/// The fields of a [`ConvertSubnetToL1Validator`], in the order in which they are written.
#[verifier::opaque]
pub open spec fn convert_subnet_to_l1_validator_ser(v: ConvertSubnetToL1ValidatorView) -> Seq<u8> {
    Vec::<u8>::ser(v.node_id) + (u64::ser(v.weight) + (u64::ser(v.balance) + (ProofOfPossession::ser(v.signer) + (L1Owner::ser(v.remaining_balance_owner) + (L1Owner::ser(v.deactivation_owner))))))
}

/// The fields of a [`ConvertSubnetToL1Validator`] at the start of `s`, and what follows.
#[verifier::opaque]
pub open spec fn convert_subnet_to_l1_validator_de(s: Seq<u8>) -> Read<ConvertSubnetToL1ValidatorView> {
    match Vec::<u8>::de(s) {
        Err(e) => Err(e),
        Ok((node_id, s)) =>
    match u64::de(s) {
        Err(e) => Err(e),
        Ok((weight, s)) =>
    match u64::de(s) {
        Err(e) => Err(e),
        Ok((balance, s)) =>
    match ProofOfPossession::de(s) {
        Err(e) => Err(e),
        Ok((signer, s)) =>
    match L1Owner::de(s) {
        Err(e) => Err(e),
        Ok((remaining_balance_owner, s)) =>
    match L1Owner::de(s) {
        Err(e) => Err(e),
        Ok((deactivation_owner, s)) =>
        Ok((ConvertSubnetToL1ValidatorView { node_id, weight, balance, signer, remaining_balance_owner, deactivation_owner }, s)),
    },},},},},}
}

impl Wire for ConvertSubnetToL1Validator {
    open spec fn fits(v: ConvertSubnetToL1ValidatorView) -> bool {
        convert_subnet_to_l1_validator_fits(v)
    }

    open spec fn ser(v: ConvertSubnetToL1ValidatorView) -> Seq<u8> {
        convert_subnet_to_l1_validator_ser(v)
    }

    open spec fn de(s: Seq<u8>) -> Read<ConvertSubnetToL1ValidatorView> {
        convert_subnet_to_l1_validator_de(s)
    }

    proof fn round_trip(v: ConvertSubnetToL1ValidatorView, t: Seq<u8>) {
        reveal(convert_subnet_to_l1_validator_fits);
        reveal(convert_subnet_to_l1_validator_ser);
        reveal(convert_subnet_to_l1_validator_de);
        let r5 = L1Owner::ser(v.deactivation_owner);
        L1Owner::round_trip(v.deactivation_owner, t);
        lemma_concat(L1Owner::ser(v.remaining_balance_owner), r5, t);
        L1Owner::round_trip(v.remaining_balance_owner, r5 + t);
        let r4 = L1Owner::ser(v.remaining_balance_owner) + r5;
        lemma_concat(ProofOfPossession::ser(v.signer), r4, t);
        ProofOfPossession::round_trip(v.signer, r4 + t);
        let r3 = ProofOfPossession::ser(v.signer) + r4;
        lemma_concat(u64::ser(v.balance), r3, t);
        u64::round_trip(v.balance, r3 + t);
        let r2 = u64::ser(v.balance) + r3;
        lemma_concat(u64::ser(v.weight), r2, t);
        u64::round_trip(v.weight, r2 + t);
        let r1 = u64::ser(v.weight) + r2;
        lemma_concat(Vec::<u8>::ser(v.node_id), r1, t);
        Vec::<u8>::round_trip(v.node_id, r1 + t);
    }

    proof fn canonical(s: Seq<u8>) {
        reveal(convert_subnet_to_l1_validator_fits);
        reveal(convert_subnet_to_l1_validator_ser);
        reveal(convert_subnet_to_l1_validator_de);
        if let Ok((v, t)) = Self::de(s) {
            Vec::<u8>::canonical(s);
            let s1 = (Vec::<u8>::de(s)->Ok_0).1;
            u64::canonical(s1);
            let s2 = (u64::de(s1)->Ok_0).1;
            u64::canonical(s2);
            let s3 = (u64::de(s2)->Ok_0).1;
            ProofOfPossession::canonical(s3);
            let s4 = (ProofOfPossession::de(s3)->Ok_0).1;
            L1Owner::canonical(s4);
            let s5 = (L1Owner::de(s4)->Ok_0).1;
            L1Owner::canonical(s5);
            let r5 = L1Owner::ser(v.deactivation_owner);
            lemma_concat(L1Owner::ser(v.remaining_balance_owner), r5, t);
            let r4 = L1Owner::ser(v.remaining_balance_owner) + r5;
            lemma_concat(ProofOfPossession::ser(v.signer), r4, t);
            let r3 = ProofOfPossession::ser(v.signer) + r4;
            lemma_concat(u64::ser(v.balance), r3, t);
            let r2 = u64::ser(v.balance) + r3;
            lemma_concat(u64::ser(v.weight), r2, t);
            let r1 = u64::ser(v.weight) + r2;
            lemma_concat(Vec::<u8>::ser(v.node_id), r1, t);
        }
    }

    fn can_write(&self) -> (r: bool) {
        proof {
            reveal(convert_subnet_to_l1_validator_fits);
        }
        self.node_id.can_write() && self.weight.can_write() && self.balance.can_write() && self.signer.can_write() && self.remaining_balance_owner.can_write() && self.deactivation_owner.can_write()
    }

    fn write(&self, out: &mut Vec<u8>) {
        proof {
            reveal(convert_subnet_to_l1_validator_fits);
            reveal(convert_subnet_to_l1_validator_ser);
        }
        self.node_id.write(out);
        self.weight.write(out);
        self.balance.write(out);
        self.signer.write(out);
        self.remaining_balance_owner.write(out);
        self.deactivation_owner.write(out);
        proof {
            let r5 = L1Owner::ser(self.deactivation_owner@);
            lemma_concat(((((old(out)@ + Vec::<u8>::ser(self.node_id@)) + u64::ser(self.weight@)) + u64::ser(self.balance@)) + ProofOfPossession::ser(self.signer@)), L1Owner::ser(self.remaining_balance_owner@), r5);
            let r4 = L1Owner::ser(self.remaining_balance_owner@) + r5;
            lemma_concat((((old(out)@ + Vec::<u8>::ser(self.node_id@)) + u64::ser(self.weight@)) + u64::ser(self.balance@)), ProofOfPossession::ser(self.signer@), r4);
            let r3 = ProofOfPossession::ser(self.signer@) + r4;
            lemma_concat(((old(out)@ + Vec::<u8>::ser(self.node_id@)) + u64::ser(self.weight@)), u64::ser(self.balance@), r3);
            let r2 = u64::ser(self.balance@) + r3;
            lemma_concat((old(out)@ + Vec::<u8>::ser(self.node_id@)), u64::ser(self.weight@), r2);
            let r1 = u64::ser(self.weight@) + r2;
            lemma_concat(old(out)@, Vec::<u8>::ser(self.node_id@), r1);
        }
    }

    fn read(p: &mut Reader<'_>) -> (r: Result<ConvertSubnetToL1Validator, CodecError>) {
        proof {
            reveal(convert_subnet_to_l1_validator_de);
        }
        let node_id: Vec<u8> = match Vec::<u8>::read(p) {
            Ok(x) => x,
            Err(e) => {
                return Err(e);
            },
        };
        let weight: u64 = match u64::read(p) {
            Ok(x) => x,
            Err(e) => {
                return Err(e);
            },
        };
        let balance: u64 = match u64::read(p) {
            Ok(x) => x,
            Err(e) => {
                return Err(e);
            },
        };
        let signer: ProofOfPossession = match ProofOfPossession::read(p) {
            Ok(x) => x,
            Err(e) => {
                return Err(e);
            },
        };
        let remaining_balance_owner: L1Owner = match L1Owner::read(p) {
            Ok(x) => x,
            Err(e) => {
                return Err(e);
            },
        };
        let deactivation_owner: L1Owner = match L1Owner::read(p) {
            Ok(x) => x,
            Err(e) => {
                return Err(e);
            },
        };
        Ok(ConvertSubnetToL1Validator { node_id, weight, balance, signer, remaining_balance_owner, deactivation_owner })
    }
}

/// Asks to turn a subnet into an L1.
#[derive(Debug, PartialEq, Eq)]
pub struct ConvertSubnetToL1Tx {
    /// What most transactions have in common.
    pub base: BaseTx,
    /// The subnet.
    pub subnet: Id,
    /// The chain that manages the L1.
    pub chain_id: Id,
    /// The address of the manager on that chain.
    pub address: Vec<u8>,
    /// The validators that the L1 starts with.
    pub validators: List<ConvertSubnetToL1Validator>,
    /// The authorization of the subnet.
    pub subnet_auth: Auth,
}

/// What a [`ConvertSubnetToL1Tx`] holds.
#[verifier::ext_equal]
pub struct ConvertSubnetToL1TxView {
    /// What most transactions have in common.
    pub base: BaseTxView,
    /// The subnet.
    pub subnet: Seq<u8>,
    /// The chain that manages the L1.
    pub chain_id: Seq<u8>,
    /// The address of the manager on that chain.
    pub address: Seq<u8>,
    /// The validators that the L1 starts with.
    pub validators: Seq<ConvertSubnetToL1ValidatorView>,
    /// The authorization of the subnet.
    pub subnet_auth: AuthView,
}

impl View for ConvertSubnetToL1Tx {
    type V = ConvertSubnetToL1TxView;

    open spec fn view(&self) -> ConvertSubnetToL1TxView {
        ConvertSubnetToL1TxView {
            base: self.base@,
            subnet: self.subnet@,
            chain_id: self.chain_id@,
            address: self.address@,
            validators: self.validators@,
            subnet_auth: self.subnet_auth@,
        }
    }
}

impl Dup for ConvertSubnetToL1Tx {
    fn dup(&self) -> (r: ConvertSubnetToL1Tx) {
        ConvertSubnetToL1Tx {
            base: self.base.dup(),
            subnet: self.subnet.dup(),
            chain_id: self.chain_id.dup(),
            address: self.address.dup(),
            validators: self.validators.dup(),
            subnet_auth: self.subnet_auth.dup(),
        }
    }
}

/// Whether every length of a [`ConvertSubnetToL1Tx`] fits its field.
#[verifier::opaque]
pub open spec fn convert_subnet_to_l1_tx_fits(v: ConvertSubnetToL1TxView) -> bool {
    &&& BaseTx::fits(v.base)
    &&& Id::fits(v.subnet)
    &&& Id::fits(v.chain_id)
    &&& Vec::<u8>::fits(v.address)
    &&& List::<ConvertSubnetToL1Validator>::fits(v.validators)
    &&& Auth::fits(v.subnet_auth)
}

/// The fields of a [`ConvertSubnetToL1Tx`], in the order in which they are written.
#[verifier::opaque]
pub open spec fn convert_subnet_to_l1_tx_ser(v: ConvertSubnetToL1TxView) -> Seq<u8> {
    BaseTx::ser(v.base) + (Id::ser(v.subnet) + (Id::ser(v.chain_id) + (Vec::<u8>::ser(v.address) + (List::<ConvertSubnetToL1Validator>::ser(v.validators) + (Auth::ser(v.subnet_auth))))))
}

/// The fields of a [`ConvertSubnetToL1Tx`] at the start of `s`, and what follows.
#[verifier::opaque]
pub open spec fn convert_subnet_to_l1_tx_de(s: Seq<u8>) -> Read<ConvertSubnetToL1TxView> {
    match BaseTx::de(s) {
        Err(e) => Err(e),
        Ok((base, s)) =>
    match Id::de(s) {
        Err(e) => Err(e),
        Ok((subnet, s)) =>
    match Id::de(s) {
        Err(e) => Err(e),
        Ok((chain_id, s)) =>
    match Vec::<u8>::de(s) {
        Err(e) => Err(e),
        Ok((address, s)) =>
    match List::<ConvertSubnetToL1Validator>::de(s) {
        Err(e) => Err(e),
        Ok((validators, s)) =>
    match Auth::de(s) {
        Err(e) => Err(e),
        Ok((subnet_auth, s)) =>
        Ok((ConvertSubnetToL1TxView { base, subnet, chain_id, address, validators, subnet_auth }, s)),
    },},},},},}
}

impl Wire for ConvertSubnetToL1Tx {
    open spec fn fits(v: ConvertSubnetToL1TxView) -> bool {
        convert_subnet_to_l1_tx_fits(v)
    }

    open spec fn ser(v: ConvertSubnetToL1TxView) -> Seq<u8> {
        convert_subnet_to_l1_tx_ser(v)
    }

    open spec fn de(s: Seq<u8>) -> Read<ConvertSubnetToL1TxView> {
        convert_subnet_to_l1_tx_de(s)
    }

    proof fn round_trip(v: ConvertSubnetToL1TxView, t: Seq<u8>) {
        reveal(convert_subnet_to_l1_tx_fits);
        reveal(convert_subnet_to_l1_tx_ser);
        reveal(convert_subnet_to_l1_tx_de);
        let r5 = Auth::ser(v.subnet_auth);
        Auth::round_trip(v.subnet_auth, t);
        lemma_concat(List::<ConvertSubnetToL1Validator>::ser(v.validators), r5, t);
        List::<ConvertSubnetToL1Validator>::round_trip(v.validators, r5 + t);
        let r4 = List::<ConvertSubnetToL1Validator>::ser(v.validators) + r5;
        lemma_concat(Vec::<u8>::ser(v.address), r4, t);
        Vec::<u8>::round_trip(v.address, r4 + t);
        let r3 = Vec::<u8>::ser(v.address) + r4;
        lemma_concat(Id::ser(v.chain_id), r3, t);
        Id::round_trip(v.chain_id, r3 + t);
        let r2 = Id::ser(v.chain_id) + r3;
        lemma_concat(Id::ser(v.subnet), r2, t);
        Id::round_trip(v.subnet, r2 + t);
        let r1 = Id::ser(v.subnet) + r2;
        lemma_concat(BaseTx::ser(v.base), r1, t);
        BaseTx::round_trip(v.base, r1 + t);
    }

    proof fn canonical(s: Seq<u8>) {
        reveal(convert_subnet_to_l1_tx_fits);
        reveal(convert_subnet_to_l1_tx_ser);
        reveal(convert_subnet_to_l1_tx_de);
        if let Ok((v, t)) = Self::de(s) {
            BaseTx::canonical(s);
            let s1 = (BaseTx::de(s)->Ok_0).1;
            Id::canonical(s1);
            let s2 = (Id::de(s1)->Ok_0).1;
            Id::canonical(s2);
            let s3 = (Id::de(s2)->Ok_0).1;
            Vec::<u8>::canonical(s3);
            let s4 = (Vec::<u8>::de(s3)->Ok_0).1;
            List::<ConvertSubnetToL1Validator>::canonical(s4);
            let s5 = (List::<ConvertSubnetToL1Validator>::de(s4)->Ok_0).1;
            Auth::canonical(s5);
            let r5 = Auth::ser(v.subnet_auth);
            lemma_concat(List::<ConvertSubnetToL1Validator>::ser(v.validators), r5, t);
            let r4 = List::<ConvertSubnetToL1Validator>::ser(v.validators) + r5;
            lemma_concat(Vec::<u8>::ser(v.address), r4, t);
            let r3 = Vec::<u8>::ser(v.address) + r4;
            lemma_concat(Id::ser(v.chain_id), r3, t);
            let r2 = Id::ser(v.chain_id) + r3;
            lemma_concat(Id::ser(v.subnet), r2, t);
            let r1 = Id::ser(v.subnet) + r2;
            lemma_concat(BaseTx::ser(v.base), r1, t);
        }
    }

    fn can_write(&self) -> (r: bool) {
        proof {
            reveal(convert_subnet_to_l1_tx_fits);
        }
        self.base.can_write() && self.subnet.can_write() && self.chain_id.can_write() && self.address.can_write() && self.validators.can_write() && self.subnet_auth.can_write()
    }

    fn write(&self, out: &mut Vec<u8>) {
        proof {
            reveal(convert_subnet_to_l1_tx_fits);
            reveal(convert_subnet_to_l1_tx_ser);
        }
        self.base.write(out);
        self.subnet.write(out);
        self.chain_id.write(out);
        self.address.write(out);
        self.validators.write(out);
        self.subnet_auth.write(out);
        proof {
            let r5 = Auth::ser(self.subnet_auth@);
            lemma_concat(((((old(out)@ + BaseTx::ser(self.base@)) + Id::ser(self.subnet@)) + Id::ser(self.chain_id@)) + Vec::<u8>::ser(self.address@)), List::<ConvertSubnetToL1Validator>::ser(self.validators@), r5);
            let r4 = List::<ConvertSubnetToL1Validator>::ser(self.validators@) + r5;
            lemma_concat((((old(out)@ + BaseTx::ser(self.base@)) + Id::ser(self.subnet@)) + Id::ser(self.chain_id@)), Vec::<u8>::ser(self.address@), r4);
            let r3 = Vec::<u8>::ser(self.address@) + r4;
            lemma_concat(((old(out)@ + BaseTx::ser(self.base@)) + Id::ser(self.subnet@)), Id::ser(self.chain_id@), r3);
            let r2 = Id::ser(self.chain_id@) + r3;
            lemma_concat((old(out)@ + BaseTx::ser(self.base@)), Id::ser(self.subnet@), r2);
            let r1 = Id::ser(self.subnet@) + r2;
            lemma_concat(old(out)@, BaseTx::ser(self.base@), r1);
        }
    }

    fn read(p: &mut Reader<'_>) -> (r: Result<ConvertSubnetToL1Tx, CodecError>) {
        proof {
            reveal(convert_subnet_to_l1_tx_de);
        }
        let base: BaseTx = match BaseTx::read(p) {
            Ok(x) => x,
            Err(e) => {
                return Err(e);
            },
        };
        let subnet: Id = match Id::read(p) {
            Ok(x) => x,
            Err(e) => {
                return Err(e);
            },
        };
        let chain_id: Id = match Id::read(p) {
            Ok(x) => x,
            Err(e) => {
                return Err(e);
            },
        };
        let address: Vec<u8> = match Vec::<u8>::read(p) {
            Ok(x) => x,
            Err(e) => {
                return Err(e);
            },
        };
        let validators: List<ConvertSubnetToL1Validator> = match List::<ConvertSubnetToL1Validator>::read(p) {
            Ok(x) => x,
            Err(e) => {
                return Err(e);
            },
        };
        let subnet_auth: Auth = match Auth::read(p) {
            Ok(x) => x,
            Err(e) => {
                return Err(e);
            },
        };
        Ok(ConvertSubnetToL1Tx { base, subnet, chain_id, address, validators, subnet_auth })
    }
}

/// Asks for a validator of an L1.
#[derive(Debug, PartialEq, Eq)]
pub struct RegisterL1ValidatorTx {
    /// What most transactions have in common.
    pub base: BaseTx,
    /// What is paid for it ahead.
    pub balance: u64,
    /// The proof that it has its BLS key.
    pub proof_of_possession: BlsSignature,
    /// The message that registers it.
    pub message: Vec<u8>,
}

/// What a [`RegisterL1ValidatorTx`] holds.
#[verifier::ext_equal]
pub struct RegisterL1ValidatorTxView {
    /// What most transactions have in common.
    pub base: BaseTxView,
    /// What is paid for it ahead.
    pub balance: u64,
    /// The proof that it has its BLS key.
    pub proof_of_possession: Seq<u8>,
    /// The message that registers it.
    pub message: Seq<u8>,
}

impl View for RegisterL1ValidatorTx {
    type V = RegisterL1ValidatorTxView;

    open spec fn view(&self) -> RegisterL1ValidatorTxView {
        RegisterL1ValidatorTxView {
            base: self.base@,
            balance: self.balance@,
            proof_of_possession: self.proof_of_possession@,
            message: self.message@,
        }
    }
}

impl Dup for RegisterL1ValidatorTx {
    fn dup(&self) -> (r: RegisterL1ValidatorTx) {
        RegisterL1ValidatorTx {
            base: self.base.dup(),
            balance: self.balance.dup(),
            proof_of_possession: self.proof_of_possession.dup(),
            message: self.message.dup(),
        }
    }
}

/// Whether every length of a [`RegisterL1ValidatorTx`] fits its field.
#[verifier::opaque]
pub open spec fn register_l1_validator_tx_fits(v: RegisterL1ValidatorTxView) -> bool {
    &&& BaseTx::fits(v.base)
    &&& u64::fits(v.balance)
    &&& BlsSignature::fits(v.proof_of_possession)
    &&& Vec::<u8>::fits(v.message)
}

/// The fields of a [`RegisterL1ValidatorTx`], in the order in which they are written.
#[verifier::opaque]
pub open spec fn register_l1_validator_tx_ser(v: RegisterL1ValidatorTxView) -> Seq<u8> {
    BaseTx::ser(v.base) + (u64::ser(v.balance) + (BlsSignature::ser(v.proof_of_possession) + (Vec::<u8>::ser(v.message))))
}

/// The fields of a [`RegisterL1ValidatorTx`] at the start of `s`, and what follows.
#[verifier::opaque]
pub open spec fn register_l1_validator_tx_de(s: Seq<u8>) -> Read<RegisterL1ValidatorTxView> {
    match BaseTx::de(s) {
        Err(e) => Err(e),
        Ok((base, s)) =>
    match u64::de(s) {
        Err(e) => Err(e),
        Ok((balance, s)) =>
    match BlsSignature::de(s) {
        Err(e) => Err(e),
        Ok((proof_of_possession, s)) =>
    match Vec::<u8>::de(s) {
        Err(e) => Err(e),
        Ok((message, s)) =>
        Ok((RegisterL1ValidatorTxView { base, balance, proof_of_possession, message }, s)),
    },},},}
}

impl Wire for RegisterL1ValidatorTx {
    open spec fn fits(v: RegisterL1ValidatorTxView) -> bool {
        register_l1_validator_tx_fits(v)
    }

    open spec fn ser(v: RegisterL1ValidatorTxView) -> Seq<u8> {
        register_l1_validator_tx_ser(v)
    }

    open spec fn de(s: Seq<u8>) -> Read<RegisterL1ValidatorTxView> {
        register_l1_validator_tx_de(s)
    }

    proof fn round_trip(v: RegisterL1ValidatorTxView, t: Seq<u8>) {
        reveal(register_l1_validator_tx_fits);
        reveal(register_l1_validator_tx_ser);
        reveal(register_l1_validator_tx_de);
        let r3 = Vec::<u8>::ser(v.message);
        Vec::<u8>::round_trip(v.message, t);
        lemma_concat(BlsSignature::ser(v.proof_of_possession), r3, t);
        BlsSignature::round_trip(v.proof_of_possession, r3 + t);
        let r2 = BlsSignature::ser(v.proof_of_possession) + r3;
        lemma_concat(u64::ser(v.balance), r2, t);
        u64::round_trip(v.balance, r2 + t);
        let r1 = u64::ser(v.balance) + r2;
        lemma_concat(BaseTx::ser(v.base), r1, t);
        BaseTx::round_trip(v.base, r1 + t);
    }

    proof fn canonical(s: Seq<u8>) {
        reveal(register_l1_validator_tx_fits);
        reveal(register_l1_validator_tx_ser);
        reveal(register_l1_validator_tx_de);
        if let Ok((v, t)) = Self::de(s) {
            BaseTx::canonical(s);
            let s1 = (BaseTx::de(s)->Ok_0).1;
            u64::canonical(s1);
            let s2 = (u64::de(s1)->Ok_0).1;
            BlsSignature::canonical(s2);
            let s3 = (BlsSignature::de(s2)->Ok_0).1;
            Vec::<u8>::canonical(s3);
            let r3 = Vec::<u8>::ser(v.message);
            lemma_concat(BlsSignature::ser(v.proof_of_possession), r3, t);
            let r2 = BlsSignature::ser(v.proof_of_possession) + r3;
            lemma_concat(u64::ser(v.balance), r2, t);
            let r1 = u64::ser(v.balance) + r2;
            lemma_concat(BaseTx::ser(v.base), r1, t);
        }
    }

    fn can_write(&self) -> (r: bool) {
        proof {
            reveal(register_l1_validator_tx_fits);
        }
        self.base.can_write() && self.balance.can_write() && self.proof_of_possession.can_write() && self.message.can_write()
    }

    fn write(&self, out: &mut Vec<u8>) {
        proof {
            reveal(register_l1_validator_tx_fits);
            reveal(register_l1_validator_tx_ser);
        }
        self.base.write(out);
        self.balance.write(out);
        self.proof_of_possession.write(out);
        self.message.write(out);
        proof {
            let r3 = Vec::<u8>::ser(self.message@);
            lemma_concat(((old(out)@ + BaseTx::ser(self.base@)) + u64::ser(self.balance@)), BlsSignature::ser(self.proof_of_possession@), r3);
            let r2 = BlsSignature::ser(self.proof_of_possession@) + r3;
            lemma_concat((old(out)@ + BaseTx::ser(self.base@)), u64::ser(self.balance@), r2);
            let r1 = u64::ser(self.balance@) + r2;
            lemma_concat(old(out)@, BaseTx::ser(self.base@), r1);
        }
    }

    fn read(p: &mut Reader<'_>) -> (r: Result<RegisterL1ValidatorTx, CodecError>) {
        proof {
            reveal(register_l1_validator_tx_de);
        }
        let base: BaseTx = match BaseTx::read(p) {
            Ok(x) => x,
            Err(e) => {
                return Err(e);
            },
        };
        let balance: u64 = match u64::read(p) {
            Ok(x) => x,
            Err(e) => {
                return Err(e);
            },
        };
        let proof_of_possession: BlsSignature = match BlsSignature::read(p) {
            Ok(x) => x,
            Err(e) => {
                return Err(e);
            },
        };
        let message: Vec<u8> = match Vec::<u8>::read(p) {
            Ok(x) => x,
            Err(e) => {
                return Err(e);
            },
        };
        Ok(RegisterL1ValidatorTx { base, balance, proof_of_possession, message })
    }
}

/// Asks to change the weight of a validator of an L1.
#[derive(Debug, PartialEq, Eq)]
pub struct SetL1ValidatorWeightTx {
    /// What most transactions have in common.
    pub base: BaseTx,
    /// The message that sets the weight.
    pub message: Vec<u8>,
}

/// What a [`SetL1ValidatorWeightTx`] holds.
#[verifier::ext_equal]
pub struct SetL1ValidatorWeightTxView {
    /// What most transactions have in common.
    pub base: BaseTxView,
    /// The message that sets the weight.
    pub message: Seq<u8>,
}

impl View for SetL1ValidatorWeightTx {
    type V = SetL1ValidatorWeightTxView;

    open spec fn view(&self) -> SetL1ValidatorWeightTxView {
        SetL1ValidatorWeightTxView {
            base: self.base@,
            message: self.message@,
        }
    }
}

impl Dup for SetL1ValidatorWeightTx {
    fn dup(&self) -> (r: SetL1ValidatorWeightTx) {
        SetL1ValidatorWeightTx {
            base: self.base.dup(),
            message: self.message.dup(),
        }
    }
}

/// Whether every length of a [`SetL1ValidatorWeightTx`] fits its field.
#[verifier::opaque]
pub open spec fn set_l1_validator_weight_tx_fits(v: SetL1ValidatorWeightTxView) -> bool {
    &&& BaseTx::fits(v.base)
    &&& Vec::<u8>::fits(v.message)
}

/// The fields of a [`SetL1ValidatorWeightTx`], in the order in which they are written.
#[verifier::opaque]
pub open spec fn set_l1_validator_weight_tx_ser(v: SetL1ValidatorWeightTxView) -> Seq<u8> {
    BaseTx::ser(v.base) + (Vec::<u8>::ser(v.message))
}

/// The fields of a [`SetL1ValidatorWeightTx`] at the start of `s`, and what follows.
#[verifier::opaque]
pub open spec fn set_l1_validator_weight_tx_de(s: Seq<u8>) -> Read<SetL1ValidatorWeightTxView> {
    match BaseTx::de(s) {
        Err(e) => Err(e),
        Ok((base, s)) =>
    match Vec::<u8>::de(s) {
        Err(e) => Err(e),
        Ok((message, s)) =>
        Ok((SetL1ValidatorWeightTxView { base, message }, s)),
    },}
}

impl Wire for SetL1ValidatorWeightTx {
    open spec fn fits(v: SetL1ValidatorWeightTxView) -> bool {
        set_l1_validator_weight_tx_fits(v)
    }

    open spec fn ser(v: SetL1ValidatorWeightTxView) -> Seq<u8> {
        set_l1_validator_weight_tx_ser(v)
    }

    open spec fn de(s: Seq<u8>) -> Read<SetL1ValidatorWeightTxView> {
        set_l1_validator_weight_tx_de(s)
    }

    proof fn round_trip(v: SetL1ValidatorWeightTxView, t: Seq<u8>) {
        reveal(set_l1_validator_weight_tx_fits);
        reveal(set_l1_validator_weight_tx_ser);
        reveal(set_l1_validator_weight_tx_de);
        let r1 = Vec::<u8>::ser(v.message);
        Vec::<u8>::round_trip(v.message, t);
        lemma_concat(BaseTx::ser(v.base), r1, t);
        BaseTx::round_trip(v.base, r1 + t);
    }

    proof fn canonical(s: Seq<u8>) {
        reveal(set_l1_validator_weight_tx_fits);
        reveal(set_l1_validator_weight_tx_ser);
        reveal(set_l1_validator_weight_tx_de);
        if let Ok((v, t)) = Self::de(s) {
            BaseTx::canonical(s);
            let s1 = (BaseTx::de(s)->Ok_0).1;
            Vec::<u8>::canonical(s1);
            let r1 = Vec::<u8>::ser(v.message);
            lemma_concat(BaseTx::ser(v.base), r1, t);
        }
    }

    fn can_write(&self) -> (r: bool) {
        proof {
            reveal(set_l1_validator_weight_tx_fits);
        }
        self.base.can_write() && self.message.can_write()
    }

    fn write(&self, out: &mut Vec<u8>) {
        proof {
            reveal(set_l1_validator_weight_tx_fits);
            reveal(set_l1_validator_weight_tx_ser);
        }
        self.base.write(out);
        self.message.write(out);
        proof {
            let r1 = Vec::<u8>::ser(self.message@);
            lemma_concat(old(out)@, BaseTx::ser(self.base@), r1);
        }
    }

    fn read(p: &mut Reader<'_>) -> (r: Result<SetL1ValidatorWeightTx, CodecError>) {
        proof {
            reveal(set_l1_validator_weight_tx_de);
        }
        let base: BaseTx = match BaseTx::read(p) {
            Ok(x) => x,
            Err(e) => {
                return Err(e);
            },
        };
        let message: Vec<u8> = match Vec::<u8>::read(p) {
            Ok(x) => x,
            Err(e) => {
                return Err(e);
            },
        };
        Ok(SetL1ValidatorWeightTx { base, message })
    }
}

/// Pays for a validator of an L1.
#[derive(Debug, PartialEq, Eq)]
pub struct IncreaseL1ValidatorBalanceTx {
    /// What most transactions have in common.
    pub base: BaseTx,
    /// The id of the validation.
    pub validation_id: Id,
    /// What is paid ahead besides.
    pub balance: u64,
}

/// What an [`IncreaseL1ValidatorBalanceTx`] holds.
#[verifier::ext_equal]
pub struct IncreaseL1ValidatorBalanceTxView {
    /// What most transactions have in common.
    pub base: BaseTxView,
    /// The id of the validation.
    pub validation_id: Seq<u8>,
    /// What is paid ahead besides.
    pub balance: u64,
}

impl View for IncreaseL1ValidatorBalanceTx {
    type V = IncreaseL1ValidatorBalanceTxView;

    open spec fn view(&self) -> IncreaseL1ValidatorBalanceTxView {
        IncreaseL1ValidatorBalanceTxView {
            base: self.base@,
            validation_id: self.validation_id@,
            balance: self.balance@,
        }
    }
}

impl Dup for IncreaseL1ValidatorBalanceTx {
    fn dup(&self) -> (r: IncreaseL1ValidatorBalanceTx) {
        IncreaseL1ValidatorBalanceTx {
            base: self.base.dup(),
            validation_id: self.validation_id.dup(),
            balance: self.balance.dup(),
        }
    }
}

/// Whether every length of a [`IncreaseL1ValidatorBalanceTx`] fits its field.
#[verifier::opaque]
pub open spec fn increase_l1_validator_balance_tx_fits(v: IncreaseL1ValidatorBalanceTxView) -> bool {
    &&& BaseTx::fits(v.base)
    &&& Id::fits(v.validation_id)
    &&& u64::fits(v.balance)
}

/// The fields of a [`IncreaseL1ValidatorBalanceTx`], in the order in which they are written.
#[verifier::opaque]
pub open spec fn increase_l1_validator_balance_tx_ser(v: IncreaseL1ValidatorBalanceTxView) -> Seq<u8> {
    BaseTx::ser(v.base) + (Id::ser(v.validation_id) + (u64::ser(v.balance)))
}

/// The fields of a [`IncreaseL1ValidatorBalanceTx`] at the start of `s`, and what follows.
#[verifier::opaque]
pub open spec fn increase_l1_validator_balance_tx_de(s: Seq<u8>) -> Read<IncreaseL1ValidatorBalanceTxView> {
    match BaseTx::de(s) {
        Err(e) => Err(e),
        Ok((base, s)) =>
    match Id::de(s) {
        Err(e) => Err(e),
        Ok((validation_id, s)) =>
    match u64::de(s) {
        Err(e) => Err(e),
        Ok((balance, s)) =>
        Ok((IncreaseL1ValidatorBalanceTxView { base, validation_id, balance }, s)),
    },},}
}

impl Wire for IncreaseL1ValidatorBalanceTx {
    open spec fn fits(v: IncreaseL1ValidatorBalanceTxView) -> bool {
        increase_l1_validator_balance_tx_fits(v)
    }

    open spec fn ser(v: IncreaseL1ValidatorBalanceTxView) -> Seq<u8> {
        increase_l1_validator_balance_tx_ser(v)
    }

    open spec fn de(s: Seq<u8>) -> Read<IncreaseL1ValidatorBalanceTxView> {
        increase_l1_validator_balance_tx_de(s)
    }

    proof fn round_trip(v: IncreaseL1ValidatorBalanceTxView, t: Seq<u8>) {
        reveal(increase_l1_validator_balance_tx_fits);
        reveal(increase_l1_validator_balance_tx_ser);
        reveal(increase_l1_validator_balance_tx_de);
        let r2 = u64::ser(v.balance);
        u64::round_trip(v.balance, t);
        lemma_concat(Id::ser(v.validation_id), r2, t);
        Id::round_trip(v.validation_id, r2 + t);
        let r1 = Id::ser(v.validation_id) + r2;
        lemma_concat(BaseTx::ser(v.base), r1, t);
        BaseTx::round_trip(v.base, r1 + t);
    }

    proof fn canonical(s: Seq<u8>) {
        reveal(increase_l1_validator_balance_tx_fits);
        reveal(increase_l1_validator_balance_tx_ser);
        reveal(increase_l1_validator_balance_tx_de);
        if let Ok((v, t)) = Self::de(s) {
            BaseTx::canonical(s);
            let s1 = (BaseTx::de(s)->Ok_0).1;
            Id::canonical(s1);
            let s2 = (Id::de(s1)->Ok_0).1;
            u64::canonical(s2);
            let r2 = u64::ser(v.balance);
            lemma_concat(Id::ser(v.validation_id), r2, t);
            let r1 = Id::ser(v.validation_id) + r2;
            lemma_concat(BaseTx::ser(v.base), r1, t);
        }
    }

    fn can_write(&self) -> (r: bool) {
        proof {
            reveal(increase_l1_validator_balance_tx_fits);
        }
        self.base.can_write() && self.validation_id.can_write() && self.balance.can_write()
    }

    fn write(&self, out: &mut Vec<u8>) {
        proof {
            reveal(increase_l1_validator_balance_tx_fits);
            reveal(increase_l1_validator_balance_tx_ser);
        }
        self.base.write(out);
        self.validation_id.write(out);
        self.balance.write(out);
        proof {
            let r2 = u64::ser(self.balance@);
            lemma_concat((old(out)@ + BaseTx::ser(self.base@)), Id::ser(self.validation_id@), r2);
            let r1 = Id::ser(self.validation_id@) + r2;
            lemma_concat(old(out)@, BaseTx::ser(self.base@), r1);
        }
    }

    fn read(p: &mut Reader<'_>) -> (r: Result<IncreaseL1ValidatorBalanceTx, CodecError>) {
        proof {
            reveal(increase_l1_validator_balance_tx_de);
        }
        let base: BaseTx = match BaseTx::read(p) {
            Ok(x) => x,
            Err(e) => {
                return Err(e);
            },
        };
        let validation_id: Id = match Id::read(p) {
            Ok(x) => x,
            Err(e) => {
                return Err(e);
            },
        };
        let balance: u64 = match u64::read(p) {
            Ok(x) => x,
            Err(e) => {
                return Err(e);
            },
        };
        Ok(IncreaseL1ValidatorBalanceTx { base, validation_id, balance })
    }
}

/// Asks to deactivate a validator of an L1.
#[derive(Debug, PartialEq, Eq)]
pub struct DisableL1ValidatorTx {
    /// What most transactions have in common.
    pub base: BaseTx,
    /// The id of the validation.
    pub validation_id: Id,
    /// The authorization of the owner.
    pub disable_auth: Auth,
}

/// What a [`DisableL1ValidatorTx`] holds.
#[verifier::ext_equal]
pub struct DisableL1ValidatorTxView {
    /// What most transactions have in common.
    pub base: BaseTxView,
    /// The id of the validation.
    pub validation_id: Seq<u8>,
    /// The authorization of the owner.
    pub disable_auth: AuthView,
}

impl View for DisableL1ValidatorTx {
    type V = DisableL1ValidatorTxView;

    open spec fn view(&self) -> DisableL1ValidatorTxView {
        DisableL1ValidatorTxView {
            base: self.base@,
            validation_id: self.validation_id@,
            disable_auth: self.disable_auth@,
        }
    }
}

impl Dup for DisableL1ValidatorTx {
    fn dup(&self) -> (r: DisableL1ValidatorTx) {
        DisableL1ValidatorTx {
            base: self.base.dup(),
            validation_id: self.validation_id.dup(),
            disable_auth: self.disable_auth.dup(),
        }
    }
}

/// Whether every length of a [`DisableL1ValidatorTx`] fits its field.
#[verifier::opaque]
pub open spec fn disable_l1_validator_tx_fits(v: DisableL1ValidatorTxView) -> bool {
    &&& BaseTx::fits(v.base)
    &&& Id::fits(v.validation_id)
    &&& Auth::fits(v.disable_auth)
}

/// The fields of a [`DisableL1ValidatorTx`], in the order in which they are written.
#[verifier::opaque]
pub open spec fn disable_l1_validator_tx_ser(v: DisableL1ValidatorTxView) -> Seq<u8> {
    BaseTx::ser(v.base) + (Id::ser(v.validation_id) + (Auth::ser(v.disable_auth)))
}

/// The fields of a [`DisableL1ValidatorTx`] at the start of `s`, and what follows.
#[verifier::opaque]
pub open spec fn disable_l1_validator_tx_de(s: Seq<u8>) -> Read<DisableL1ValidatorTxView> {
    match BaseTx::de(s) {
        Err(e) => Err(e),
        Ok((base, s)) =>
    match Id::de(s) {
        Err(e) => Err(e),
        Ok((validation_id, s)) =>
    match Auth::de(s) {
        Err(e) => Err(e),
        Ok((disable_auth, s)) =>
        Ok((DisableL1ValidatorTxView { base, validation_id, disable_auth }, s)),
    },},}
}

impl Wire for DisableL1ValidatorTx {
    open spec fn fits(v: DisableL1ValidatorTxView) -> bool {
        disable_l1_validator_tx_fits(v)
    }

    open spec fn ser(v: DisableL1ValidatorTxView) -> Seq<u8> {
        disable_l1_validator_tx_ser(v)
    }

    open spec fn de(s: Seq<u8>) -> Read<DisableL1ValidatorTxView> {
        disable_l1_validator_tx_de(s)
    }

    proof fn round_trip(v: DisableL1ValidatorTxView, t: Seq<u8>) {
        reveal(disable_l1_validator_tx_fits);
        reveal(disable_l1_validator_tx_ser);
        reveal(disable_l1_validator_tx_de);
        let r2 = Auth::ser(v.disable_auth);
        Auth::round_trip(v.disable_auth, t);
        lemma_concat(Id::ser(v.validation_id), r2, t);
        Id::round_trip(v.validation_id, r2 + t);
        let r1 = Id::ser(v.validation_id) + r2;
        lemma_concat(BaseTx::ser(v.base), r1, t);
        BaseTx::round_trip(v.base, r1 + t);
    }

    proof fn canonical(s: Seq<u8>) {
        reveal(disable_l1_validator_tx_fits);
        reveal(disable_l1_validator_tx_ser);
        reveal(disable_l1_validator_tx_de);
        if let Ok((v, t)) = Self::de(s) {
            BaseTx::canonical(s);
            let s1 = (BaseTx::de(s)->Ok_0).1;
            Id::canonical(s1);
            let s2 = (Id::de(s1)->Ok_0).1;
            Auth::canonical(s2);
            let r2 = Auth::ser(v.disable_auth);
            lemma_concat(Id::ser(v.validation_id), r2, t);
            let r1 = Id::ser(v.validation_id) + r2;
            lemma_concat(BaseTx::ser(v.base), r1, t);
        }
    }

    fn can_write(&self) -> (r: bool) {
        proof {
            reveal(disable_l1_validator_tx_fits);
        }
        self.base.can_write() && self.validation_id.can_write() && self.disable_auth.can_write()
    }

    fn write(&self, out: &mut Vec<u8>) {
        proof {
            reveal(disable_l1_validator_tx_fits);
            reveal(disable_l1_validator_tx_ser);
        }
        self.base.write(out);
        self.validation_id.write(out);
        self.disable_auth.write(out);
        proof {
            let r2 = Auth::ser(self.disable_auth@);
            lemma_concat((old(out)@ + BaseTx::ser(self.base@)), Id::ser(self.validation_id@), r2);
            let r1 = Id::ser(self.validation_id@) + r2;
            lemma_concat(old(out)@, BaseTx::ser(self.base@), r1);
        }
    }

    fn read(p: &mut Reader<'_>) -> (r: Result<DisableL1ValidatorTx, CodecError>) {
        proof {
            reveal(disable_l1_validator_tx_de);
        }
        let base: BaseTx = match BaseTx::read(p) {
            Ok(x) => x,
            Err(e) => {
                return Err(e);
            },
        };
        let validation_id: Id = match Id::read(p) {
            Ok(x) => x,
            Err(e) => {
                return Err(e);
            },
        };
        let disable_auth: Auth = match Auth::read(p) {
            Ok(x) => x,
            Err(e) => {
                return Err(e);
            },
        };
        Ok(DisableL1ValidatorTx { base, validation_id, disable_auth })
    }
}

} // verus!
