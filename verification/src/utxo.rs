//! Unspent outputs.
use vstd::prelude::*;

use crate::codec::{be, lemma_concat, push_u64, CodecError, Reader};
use crate::collections::ordmap::Dup;
use crate::crypto::{digest_id, sha256_digest};
use crate::ids::{Id, ShortId};
use crate::txs::components::{Output, OutputView};
use crate::wire::{genesis_codec, unversioned, versioned, Read, Wire};

verus! {

/// An unspent output.
#[derive(Debug, PartialEq, Eq)]
pub struct Utxo {
    /// The transaction that made it.
    pub tx_id: Id,
    /// Which of its outputs it is.
    pub output_index: u32,
    /// The asset.
    pub asset_id: Id,
    /// The output.
    pub out: Output,
}

/// What an [`Utxo`] holds.
#[verifier::ext_equal]
pub struct UtxoView {
    /// The transaction that made it.
    pub tx_id: Seq<u8>,
    /// Which of its outputs it is.
    pub output_index: u32,
    /// The asset.
    pub asset_id: Seq<u8>,
    /// The output.
    pub out: OutputView,
}

impl View for Utxo {
    type V = UtxoView;

    open spec fn view(&self) -> UtxoView {
        UtxoView {
            tx_id: self.tx_id@,
            output_index: self.output_index@,
            asset_id: self.asset_id@,
            out: self.out@,
        }
    }
}

impl Dup for Utxo {
    fn dup(&self) -> (r: Utxo) {
        Utxo {
            tx_id: self.tx_id.dup(),
            output_index: self.output_index.dup(),
            asset_id: self.asset_id.dup(),
            out: self.out.dup(),
        }
    }
}

/// Whether every length of a [`Utxo`] fits its field.
#[verifier::opaque]
pub open spec fn utxo_fits(v: UtxoView) -> bool {
    &&& Id::fits(v.tx_id)
    &&& u32::fits(v.output_index)
    &&& Id::fits(v.asset_id)
    &&& Output::fits(v.out)
}

/// The fields of a [`Utxo`], in the order in which they are written.
#[verifier::opaque]
pub open spec fn utxo_ser(v: UtxoView) -> Seq<u8> {
    Id::ser(v.tx_id) + (u32::ser(v.output_index) + (Id::ser(v.asset_id) + (Output::ser(v.out))))
}

/// The fields of a [`Utxo`] at the start of `s`, and what follows.
#[verifier::opaque]
pub open spec fn utxo_de(s: Seq<u8>) -> Read<UtxoView> {
    match Id::de(s) {
        Err(e) => Err(e),
        Ok((tx_id, s)) =>
    match u32::de(s) {
        Err(e) => Err(e),
        Ok((output_index, s)) =>
    match Id::de(s) {
        Err(e) => Err(e),
        Ok((asset_id, s)) =>
    match Output::de(s) {
        Err(e) => Err(e),
        Ok((out, s)) =>
        Ok((UtxoView { tx_id, output_index, asset_id, out }, s)),
    },},},}
}

impl Wire for Utxo {
    open spec fn fits(v: UtxoView) -> bool {
        utxo_fits(v)
    }

    open spec fn ser(v: UtxoView) -> Seq<u8> {
        utxo_ser(v)
    }

    open spec fn de(s: Seq<u8>) -> Read<UtxoView> {
        utxo_de(s)
    }

    proof fn round_trip(v: UtxoView, t: Seq<u8>) {
        reveal(utxo_fits);
        reveal(utxo_ser);
        reveal(utxo_de);
        let r3 = Output::ser(v.out);
        Output::round_trip(v.out, t);
        lemma_concat(Id::ser(v.asset_id), r3, t);
        Id::round_trip(v.asset_id, r3 + t);
        let r2 = Id::ser(v.asset_id) + r3;
        lemma_concat(u32::ser(v.output_index), r2, t);
        u32::round_trip(v.output_index, r2 + t);
        let r1 = u32::ser(v.output_index) + r2;
        lemma_concat(Id::ser(v.tx_id), r1, t);
        Id::round_trip(v.tx_id, r1 + t);
    }

    proof fn canonical(s: Seq<u8>) {
        reveal(utxo_fits);
        reveal(utxo_ser);
        reveal(utxo_de);
        if let Ok((v, t)) = Self::de(s) {
            Id::canonical(s);
            let s1 = (Id::de(s)->Ok_0).1;
            u32::canonical(s1);
            let s2 = (u32::de(s1)->Ok_0).1;
            Id::canonical(s2);
            let s3 = (Id::de(s2)->Ok_0).1;
            Output::canonical(s3);
            let r3 = Output::ser(v.out);
            lemma_concat(Id::ser(v.asset_id), r3, t);
            let r2 = Id::ser(v.asset_id) + r3;
            lemma_concat(u32::ser(v.output_index), r2, t);
            let r1 = u32::ser(v.output_index) + r2;
            lemma_concat(Id::ser(v.tx_id), r1, t);
        }
    }

    fn can_write(&self) -> (r: bool) {
        proof {
            reveal(utxo_fits);
        }
        self.tx_id.can_write() && self.output_index.can_write() && self.asset_id.can_write() && self.out.can_write()
    }

    fn write(&self, out: &mut Vec<u8>) {
        proof {
            reveal(utxo_fits);
            reveal(utxo_ser);
        }
        self.tx_id.write(out);
        self.output_index.write(out);
        self.asset_id.write(out);
        self.out.write(out);
        proof {
            let r3 = Output::ser(self.out@);
            lemma_concat(((old(out)@ + Id::ser(self.tx_id@)) + u32::ser(self.output_index@)), Id::ser(self.asset_id@), r3);
            let r2 = Id::ser(self.asset_id@) + r3;
            lemma_concat((old(out)@ + Id::ser(self.tx_id@)), u32::ser(self.output_index@), r2);
            let r1 = u32::ser(self.output_index@) + r2;
            lemma_concat(old(out)@, Id::ser(self.tx_id@), r1);
        }
    }

    fn read(p: &mut Reader<'_>) -> (r: Result<Utxo, CodecError>) {
        proof {
            reveal(utxo_de);
        }
        let tx_id: Id = match Id::read(p) {
            Ok(x) => x,
            Err(e) => {
                return Err(e);
            },
        };
        let output_index: u32 = match u32::read(p) {
            Ok(x) => x,
            Err(e) => {
                return Err(e);
            },
        };
        let asset_id: Id = match Id::read(p) {
            Ok(x) => x,
            Err(e) => {
                return Err(e);
            },
        };
        let out: Output = match Output::read(p) {
            Ok(x) => x,
            Err(e) => {
                return Err(e);
            },
        };
        Ok(Utxo { tx_id, output_index, asset_id, out })
    }
}

/// The id that the `index`-th output of a transaction is stored under.
pub open spec fn input_id_of(tx_id: Seq<u8>, index: u64) -> Seq<u8> {
    sha256_digest(be(index as nat, 8) + tx_id)
}

/// The id made of `id` behind the number `prefix`.
pub fn prefixed_id(id: Id, prefix: u64) -> (r: Id)
    ensures
        r@ == input_id_of(id@, prefix),
{
    let mut buf: Vec<u8> = Vec::new();
    push_u64(&mut buf, prefix);
    buf.extend_from_slice(id.as_bytes());
    assert(buf@ =~= be(prefix as nat, 8) + id@);
    digest_id(buf.as_slice())
}

/// The addresses that own an output, under all locks.
pub open spec fn addresses_of(v: OutputView) -> Seq<Seq<u8>>
    decreases v,
{
    match v {
        OutputView::Transfer(x) => x.owners.addrs,
        OutputView::StakeableLock(_, x) => addresses_of(*x),
    }
}

/// The addresses that own `out`, under all locks.
pub fn output_addresses(out: &Output) -> (r: &Vec<ShortId>)
    ensures
        r@.map_values(|a: ShortId| a@) == addresses_of(out@),
    decreases out,
{
    match out {
        Output::Transfer(x) => &x.owners.addrs.items,
        Output::StakeableLock(l) => output_addresses(&*l.transferable_out),
    }
}

impl Utxo {
    /// The id that the output is stored under.
    pub fn input_id(&self) -> (r: Id)
        ensures
            r@ == input_id_of(self.tx_id@, self.output_index as u64),
    {
        prefixed_id(self.tx_id, self.output_index as u64)
    }

    /// The bytes that the output is stored as.
    pub fn marshal(&self) -> (r: Result<Vec<u8>, CodecError>)
        ensures
            r is Ok <==> Utxo::fits(self@) && versioned::<Utxo>(self@).len() <= 0x7fff_ffff,
            r matches Ok(b) ==> b@ == versioned::<Utxo>(self@),
            r matches Err(e) ==> e == if Utxo::fits(self@) {
                CodecError::TooBig
            } else {
                CodecError::LengthOverflow
            },
    {
        genesis_codec().marshal(self)
    }

    /// The output that `bytes` hold.
    pub fn unmarshal(bytes: &[u8]) -> (r: Result<Utxo, CodecError>)
        ensures
            match unversioned::<Utxo>(0x7fff_ffff, bytes@) {
                Ok(v) => r is Ok && r->Ok_0@ == v,
                Err(e) => r is Err && r->Err_0 == e,
            },
    {
        genesis_codec().unmarshal(bytes)
    }
}

} // verus!
