//! The genesis state as it is written.
use vstd::prelude::*;

use crate::codec::{lemma_concat, CodecError, Reader};
use crate::collections::ordmap::Dup;
use crate::txs::tx::{Tx, TxView};
use crate::utxo::{Utxo, UtxoView};
use crate::wire::{List, Read, Wire};

verus! {

/// An unspent output with a message.
#[derive(Debug, PartialEq, Eq)]
pub struct GenesisUtxo {
    /// The output.
    pub utxo: Utxo,
    /// The message.
    pub message: Vec<u8>,
}

/// What a [`GenesisUtxo`] holds.
#[verifier::ext_equal]
pub struct GenesisUtxoView {
    /// The output.
    pub utxo: UtxoView,
    /// The message.
    pub message: Seq<u8>,
}

impl View for GenesisUtxo {
    type V = GenesisUtxoView;

    open spec fn view(&self) -> GenesisUtxoView {
        GenesisUtxoView {
            utxo: self.utxo@,
            message: self.message@,
        }
    }
}

impl Dup for GenesisUtxo {
    fn dup(&self) -> (r: GenesisUtxo) {
        GenesisUtxo {
            utxo: self.utxo.dup(),
            message: self.message.dup(),
        }
    }
}

/// Whether every length of a [`GenesisUtxo`] fits its field.
#[verifier::opaque]
pub open spec fn genesis_utxo_fits(v: GenesisUtxoView) -> bool {
    &&& Utxo::fits(v.utxo)
    &&& Vec::<u8>::fits(v.message)
}

/// The fields of a [`GenesisUtxo`], in the order in which they are written.
#[verifier::opaque]
pub open spec fn genesis_utxo_ser(v: GenesisUtxoView) -> Seq<u8> {
    Utxo::ser(v.utxo) + (Vec::<u8>::ser(v.message))
}

/// The fields of a [`GenesisUtxo`] at the start of `s`, and what follows.
#[verifier::opaque]
pub open spec fn genesis_utxo_de(s: Seq<u8>) -> Read<GenesisUtxoView> {
    match Utxo::de(s) {
        Err(e) => Err(e),
        Ok((utxo, s)) =>
    match Vec::<u8>::de(s) {
        Err(e) => Err(e),
        Ok((message, s)) =>
        Ok((GenesisUtxoView { utxo, message }, s)),
    },}
}

impl Wire for GenesisUtxo {
    open spec fn fits(v: GenesisUtxoView) -> bool {
        genesis_utxo_fits(v)
    }

    open spec fn ser(v: GenesisUtxoView) -> Seq<u8> {
        genesis_utxo_ser(v)
    }

    open spec fn de(s: Seq<u8>) -> Read<GenesisUtxoView> {
        genesis_utxo_de(s)
    }

    proof fn round_trip(v: GenesisUtxoView, t: Seq<u8>) {
        reveal(genesis_utxo_fits);
        reveal(genesis_utxo_ser);
        reveal(genesis_utxo_de);
        let r1 = Vec::<u8>::ser(v.message);
        Vec::<u8>::round_trip(v.message, t);
        lemma_concat(Utxo::ser(v.utxo), r1, t);
        Utxo::round_trip(v.utxo, r1 + t);
    }

    proof fn canonical(s: Seq<u8>) {
        reveal(genesis_utxo_fits);
        reveal(genesis_utxo_ser);
        reveal(genesis_utxo_de);
        if let Ok((v, t)) = Self::de(s) {
            Utxo::canonical(s);
            let s1 = (Utxo::de(s)->Ok_0).1;
            Vec::<u8>::canonical(s1);
            let r1 = Vec::<u8>::ser(v.message);
            lemma_concat(Utxo::ser(v.utxo), r1, t);
        }
    }

    fn can_write(&self) -> (r: bool) {
        proof {
            reveal(genesis_utxo_fits);
        }
        self.utxo.can_write() && self.message.can_write()
    }

    fn write(&self, out: &mut Vec<u8>) {
        proof {
            reveal(genesis_utxo_fits);
            reveal(genesis_utxo_ser);
        }
        self.utxo.write(out);
        self.message.write(out);
        proof {
            let r1 = Vec::<u8>::ser(self.message@);
            lemma_concat(old(out)@, Utxo::ser(self.utxo@), r1);
        }
    }

    fn read(p: &mut Reader<'_>) -> (r: Result<GenesisUtxo, CodecError>) {
        proof {
            reveal(genesis_utxo_de);
        }
        let utxo: Utxo = match Utxo::read(p) {
            Ok(x) => x,
            Err(e) => {
                return Err(e);
            },
        };
        let message: Vec<u8> = match Vec::<u8>::read(p) {
            Ok(x) => x,
            Err(e) => {
                return Err(e);
            },
        };
        Ok(GenesisUtxo { utxo, message })
    }
}

/// The state that the chain starts from.
#[derive(Debug, PartialEq, Eq)]
pub struct Genesis {
    /// The unspent outputs.
    pub utxos: List<GenesisUtxo>,
    /// The transactions that add the validators.
    pub validators: List<Tx>,
    /// The transactions that create the chains.
    pub chains: List<Tx>,
    /// The time, in Unix seconds.
    pub timestamp: u64,
    /// The supply.
    pub initial_supply: u64,
    /// The message.
    pub message: String,
}

/// What a [`Genesis`] holds.
#[verifier::ext_equal]
pub struct GenesisView {
    /// The unspent outputs.
    pub utxos: Seq<GenesisUtxoView>,
    /// The transactions that add the validators.
    pub validators: Seq<TxView>,
    /// The transactions that create the chains.
    pub chains: Seq<TxView>,
    /// The time, in Unix seconds.
    pub timestamp: u64,
    /// The supply.
    pub initial_supply: u64,
    /// The message.
    pub message: Seq<char>,
}

impl View for Genesis {
    type V = GenesisView;

    open spec fn view(&self) -> GenesisView {
        GenesisView {
            utxos: self.utxos@,
            validators: self.validators@,
            chains: self.chains@,
            timestamp: self.timestamp@,
            initial_supply: self.initial_supply@,
            message: self.message@,
        }
    }
}

impl Dup for Genesis {
    fn dup(&self) -> (r: Genesis) {
        Genesis {
            utxos: self.utxos.dup(),
            validators: self.validators.dup(),
            chains: self.chains.dup(),
            timestamp: self.timestamp.dup(),
            initial_supply: self.initial_supply.dup(),
            message: self.message.dup(),
        }
    }
}

/// Whether every length of a [`Genesis`] fits its field.
#[verifier::opaque]
pub open spec fn genesis_fits(v: GenesisView) -> bool {
    &&& List::<GenesisUtxo>::fits(v.utxos)
    &&& List::<Tx>::fits(v.validators)
    &&& List::<Tx>::fits(v.chains)
    &&& u64::fits(v.timestamp)
    &&& u64::fits(v.initial_supply)
    &&& String::fits(v.message)
}

/// The fields of a [`Genesis`], in the order in which they are written.
#[verifier::opaque]
pub open spec fn genesis_ser(v: GenesisView) -> Seq<u8> {
    List::<GenesisUtxo>::ser(v.utxos) + (List::<Tx>::ser(v.validators) + (List::<Tx>::ser(v.chains) + (u64::ser(v.timestamp) + (u64::ser(v.initial_supply) + (String::ser(v.message))))))
}

/// The fields of a [`Genesis`] at the start of `s`, and what follows.
#[verifier::opaque]
pub open spec fn genesis_de(s: Seq<u8>) -> Read<GenesisView> {
    match List::<GenesisUtxo>::de(s) {
        Err(e) => Err(e),
        Ok((utxos, s)) =>
    match List::<Tx>::de(s) {
        Err(e) => Err(e),
        Ok((validators, s)) =>
    match List::<Tx>::de(s) {
        Err(e) => Err(e),
        Ok((chains, s)) =>
    match u64::de(s) {
        Err(e) => Err(e),
        Ok((timestamp, s)) =>
    match u64::de(s) {
        Err(e) => Err(e),
        Ok((initial_supply, s)) =>
    match String::de(s) {
        Err(e) => Err(e),
        Ok((message, s)) =>
        Ok((GenesisView { utxos, validators, chains, timestamp, initial_supply, message }, s)),
    },},},},},}
}

impl Wire for Genesis {
    open spec fn fits(v: GenesisView) -> bool {
        genesis_fits(v)
    }

    open spec fn ser(v: GenesisView) -> Seq<u8> {
        genesis_ser(v)
    }

    open spec fn de(s: Seq<u8>) -> Read<GenesisView> {
        genesis_de(s)
    }

    proof fn round_trip(v: GenesisView, t: Seq<u8>) {
        reveal(genesis_fits);
        reveal(genesis_ser);
        reveal(genesis_de);
        let r5 = String::ser(v.message);
        String::round_trip(v.message, t);
        lemma_concat(u64::ser(v.initial_supply), r5, t);
        u64::round_trip(v.initial_supply, r5 + t);
        let r4 = u64::ser(v.initial_supply) + r5;
        lemma_concat(u64::ser(v.timestamp), r4, t);
        u64::round_trip(v.timestamp, r4 + t);
        let r3 = u64::ser(v.timestamp) + r4;
        lemma_concat(List::<Tx>::ser(v.chains), r3, t);
        List::<Tx>::round_trip(v.chains, r3 + t);
        let r2 = List::<Tx>::ser(v.chains) + r3;
        lemma_concat(List::<Tx>::ser(v.validators), r2, t);
        List::<Tx>::round_trip(v.validators, r2 + t);
        let r1 = List::<Tx>::ser(v.validators) + r2;
        lemma_concat(List::<GenesisUtxo>::ser(v.utxos), r1, t);
        List::<GenesisUtxo>::round_trip(v.utxos, r1 + t);
    }

    proof fn canonical(s: Seq<u8>) {
        reveal(genesis_fits);
        reveal(genesis_ser);
        reveal(genesis_de);
        if let Ok((v, t)) = Self::de(s) {
            List::<GenesisUtxo>::canonical(s);
            let s1 = (List::<GenesisUtxo>::de(s)->Ok_0).1;
            List::<Tx>::canonical(s1);
            let s2 = (List::<Tx>::de(s1)->Ok_0).1;
            List::<Tx>::canonical(s2);
            let s3 = (List::<Tx>::de(s2)->Ok_0).1;
            u64::canonical(s3);
            let s4 = (u64::de(s3)->Ok_0).1;
            u64::canonical(s4);
            let s5 = (u64::de(s4)->Ok_0).1;
            String::canonical(s5);
            let r5 = String::ser(v.message);
            lemma_concat(u64::ser(v.initial_supply), r5, t);
            let r4 = u64::ser(v.initial_supply) + r5;
            lemma_concat(u64::ser(v.timestamp), r4, t);
            let r3 = u64::ser(v.timestamp) + r4;
            lemma_concat(List::<Tx>::ser(v.chains), r3, t);
            let r2 = List::<Tx>::ser(v.chains) + r3;
            lemma_concat(List::<Tx>::ser(v.validators), r2, t);
            let r1 = List::<Tx>::ser(v.validators) + r2;
            lemma_concat(List::<GenesisUtxo>::ser(v.utxos), r1, t);
        }
    }

    fn can_write(&self) -> (r: bool) {
        proof {
            reveal(genesis_fits);
        }
        self.utxos.can_write() && self.validators.can_write() && self.chains.can_write() && self.timestamp.can_write() && self.initial_supply.can_write() && self.message.can_write()
    }

    fn write(&self, out: &mut Vec<u8>) {
        proof {
            reveal(genesis_fits);
            reveal(genesis_ser);
        }
        self.utxos.write(out);
        self.validators.write(out);
        self.chains.write(out);
        self.timestamp.write(out);
        self.initial_supply.write(out);
        self.message.write(out);
        proof {
            let r5 = String::ser(self.message@);
            lemma_concat(((((old(out)@ + List::<GenesisUtxo>::ser(self.utxos@)) + List::<Tx>::ser(self.validators@)) + List::<Tx>::ser(self.chains@)) + u64::ser(self.timestamp@)), u64::ser(self.initial_supply@), r5);
            let r4 = u64::ser(self.initial_supply@) + r5;
            lemma_concat((((old(out)@ + List::<GenesisUtxo>::ser(self.utxos@)) + List::<Tx>::ser(self.validators@)) + List::<Tx>::ser(self.chains@)), u64::ser(self.timestamp@), r4);
            let r3 = u64::ser(self.timestamp@) + r4;
            lemma_concat(((old(out)@ + List::<GenesisUtxo>::ser(self.utxos@)) + List::<Tx>::ser(self.validators@)), List::<Tx>::ser(self.chains@), r3);
            let r2 = List::<Tx>::ser(self.chains@) + r3;
            lemma_concat((old(out)@ + List::<GenesisUtxo>::ser(self.utxos@)), List::<Tx>::ser(self.validators@), r2);
            let r1 = List::<Tx>::ser(self.validators@) + r2;
            lemma_concat(old(out)@, List::<GenesisUtxo>::ser(self.utxos@), r1);
        }
    }

    fn read(p: &mut Reader<'_>) -> (r: Result<Genesis, CodecError>) {
        proof {
            reveal(genesis_de);
        }
        let utxos: List<GenesisUtxo> = match List::<GenesisUtxo>::read(p) {
            Ok(x) => x,
            Err(e) => {
                return Err(e);
            },
        };
        let validators: List<Tx> = match List::<Tx>::read(p) {
            Ok(x) => x,
            Err(e) => {
                return Err(e);
            },
        };
        let chains: List<Tx> = match List::<Tx>::read(p) {
            Ok(x) => x,
            Err(e) => {
                return Err(e);
            },
        };
        let timestamp: u64 = match u64::read(p) {
            Ok(x) => x,
            Err(e) => {
                return Err(e);
            },
        };
        let initial_supply: u64 = match u64::read(p) {
            Ok(x) => x,
            Err(e) => {
                return Err(e);
            },
        };
        let message: String = match String::read(p) {
            Ok(x) => x,
            Err(e) => {
                return Err(e);
            },
        };
        Ok(Genesis { utxos, validators, chains, timestamp, initial_supply, message })
    }
}

} // verus!
