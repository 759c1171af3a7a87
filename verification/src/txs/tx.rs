//! Signed transactions.
use vstd::prelude::*;

use crate::codec::{lemma_concat, CodecError, Reader};
use crate::collections::ordmap::Dup;
use crate::crypto::{digest_id, sha256_digest};
use crate::ids::{empty_id, Id};
use crate::order::bytes_copy;
use crate::txs::unsigned::{Credential, CredentialView, UnsignedTx, UnsignedTxView};
use crate::wire::{unversioned, versioned, List, Manager, Read, Wire};

verus! {

/// A transaction with its signatures, and what was derived from it: its bytes
/// and their digest, which is its id.
#[derive(Debug, PartialEq, Eq)]
pub struct Tx {
    /// What the transaction asks for.
    pub unsigned: UnsignedTx,
    /// What its inputs are signed with.
    pub creds: List<Credential>,
    /// The id, which is empty until it is derived.
    pub tx_id: Id,
    /// The bytes, which are none until they are derived.
    pub bytes: Vec<u8>,
}

/// What is written of a [`Tx`].
#[verifier::ext_equal]
pub struct TxView {
    /// What the transaction asks for.
    pub unsigned: UnsignedTxView,
    /// What its inputs are signed with.
    pub creds: Seq<CredentialView>,
}

impl View for Tx {
    type V = TxView;

    open spec fn view(&self) -> TxView {
        TxView { unsigned: self.unsigned@, creds: self.creds@ }
    }
}

impl Wire for Tx {
    open spec fn fits(v: TxView) -> bool {
        &&& UnsignedTx::fits(v.unsigned)
        &&& List::<Credential>::fits(v.creds)
    }

    open spec fn ser(v: TxView) -> Seq<u8> {
        UnsignedTx::ser(v.unsigned) + List::<Credential>::ser(v.creds)
    }

    open spec fn de(s: Seq<u8>) -> Read<TxView> {
        match UnsignedTx::de(s) {
            Err(e) => Err(e),
            Ok((unsigned, s)) => match List::<Credential>::de(s) {
                Err(e) => Err(e),
                Ok((creds, s)) => Ok((TxView { unsigned, creds }, s)),
            },
        }
    }

    proof fn round_trip(v: TxView, t: Seq<u8>) {
        let r1 = List::<Credential>::ser(v.creds);
        List::<Credential>::round_trip(v.creds, t);
        lemma_concat(UnsignedTx::ser(v.unsigned), r1, t);
        UnsignedTx::round_trip(v.unsigned, r1 + t);
    }

    proof fn canonical(s: Seq<u8>) {
        if let Ok((v, t)) = Self::de(s) {
            UnsignedTx::canonical(s);
            let s1 = (UnsignedTx::de(s)->Ok_0).1;
            List::<Credential>::canonical(s1);
            let r1 = List::<Credential>::ser(v.creds);
            lemma_concat(UnsignedTx::ser(v.unsigned), r1, t);
        }
    }

    fn can_write(&self) -> (r: bool) {
        self.unsigned.can_write() && self.creds.can_write()
    }

    fn write(&self, out: &mut Vec<u8>) {
        self.unsigned.write(out);
        self.creds.write(out);
        assert(out@ =~= old(out)@ + Self::ser(self@));
    }

    fn read(p: &mut Reader<'_>) -> (r: Result<Tx, CodecError>) {
        let unsigned: UnsignedTx = match UnsignedTx::read(p) {
            Ok(x) => x,
            Err(e) => {
                return Err(e);
            },
        };
        let creds: List<Credential> = match List::<Credential>::read(p) {
            Ok(x) => x,
            Err(e) => {
                return Err(e);
            },
        };
        Ok(Tx { unsigned, creds, tx_id: Id::empty(), bytes: Vec::new() })
    }
}

/// What a transaction is known by: its id and its bytes.
#[verifier::ext_equal]
pub struct TxCache {
    /// The id.
    pub id: Seq<u8>,
    /// The bytes.
    pub bytes: Seq<u8>,
}

impl TxCache {
    /// Nothing derived yet.
    pub open spec fn none() -> TxCache {
        TxCache { id: empty_id(), bytes: Seq::empty() }
    }

    /// What is derived from `bytes`.
    pub open spec fn of(bytes: Seq<u8>) -> TxCache {
        TxCache { id: sha256_digest(bytes), bytes }
    }
}

impl Dup for Tx {
    fn dup(&self) -> (r: Tx)
        ensures
            r.cache() == self.cache(),
    {
        Tx {
            unsigned: self.unsigned.dup(),
            creds: self.creds.dup(),
            tx_id: self.tx_id,
            bytes: bytes_copy(self.bytes.as_slice()),
        }
    }
}

impl Tx {
    /// What was derived from the transaction.
    pub open spec fn cache(&self) -> TxCache {
        TxCache { id: self.tx_id@, bytes: self.bytes@ }
    }

    /// A transaction without signatures, from which nothing is derived yet.
    pub fn new(unsigned: UnsignedTx) -> (r: Tx)
        ensures
            r.unsigned == unsigned,
            r.creds@ == Seq::<CredentialView>::empty(),
            r.cache() == TxCache::none(),
    {
        let creds: List<Credential> = List { items: Vec::new() };
        assert(creds@ =~= Seq::empty());
        Tx { unsigned, creds, tx_id: Id::empty(), bytes: Vec::new() }
    }

    /// Derives the bytes and the id. Where the transaction cannot be written,
    /// nothing changes.
    pub fn initialize(&mut self, c: &Manager) -> (r: Result<(), CodecError>)
        ensures
            final(self)@ == old(self)@,
            r is Ok <==> Tx::fits(old(self)@) && versioned::<Tx>(old(self)@).len() <= c.max_size,
            r is Ok ==> final(self).cache() == TxCache::of(versioned::<Tx>(old(self)@)),
            r is Err ==> final(self).cache() == old(self).cache(),
            r matches Err(e) ==> e == if Tx::fits(old(self)@) {
                CodecError::TooBig
            } else {
                CodecError::LengthOverflow
            },
    {
        match c.marshal(&*self) {
            Ok(bytes) => {
                self.tx_id = digest_id(bytes.as_slice());
                self.bytes = bytes;
                Ok(())
            },
            Err(e) => Err(e),
        }
    }

    /// The transaction that `bytes` hold, with its id.
    pub fn parse(c: &Manager, bytes: &[u8]) -> (r: Result<Tx, CodecError>)
        ensures
            match unversioned::<Tx>(c.max_size as nat, bytes@) {
                Ok(v) => r is Ok && r->Ok_0@ == v && r->Ok_0.cache() == TxCache::of(bytes@),
                Err(e) => r is Err && r->Err_0 == e,
            },
    {
        match c.unmarshal::<Tx>(bytes) {
            Ok(tx) => {
                let mut tx = tx;
                tx.tx_id = digest_id(bytes);
                tx.bytes = bytes_copy(bytes);
                Ok(tx)
            },
            Err(e) => Err(e),
        }
    }

    /// The id, which is empty until it is derived.
    pub fn id(&self) -> (r: Id)
        ensures
            r@ == self.cache().id,
    {
        self.tx_id
    }

    /// The bytes, which are none until they are derived.
    pub fn bytes(&self) -> (r: &[u8])
        ensures
            r@ == self.cache().bytes,
    {
        self.bytes.as_slice()
    }
}

} // verus!
