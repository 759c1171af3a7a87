//! Nodes that stake.
use vstd::prelude::*;

use crate::codec::{lemma_concat, CodecError, Reader};
use crate::collections::ordmap::Dup;
use crate::ids::NodeId;
use crate::wire::{Read, Wire};

verus! {

/// A node that stakes.
#[derive(Debug, PartialEq, Eq)]
pub struct Validator {
    /// The node.
    pub node_id: NodeId,
    /// When it starts, in Unix seconds.
    pub start: u64,
    /// When it ends, in Unix seconds.
    pub end: u64,
    /// Its weight.
    pub wght: u64,
}

/// What a [`Validator`] holds.
#[verifier::ext_equal]
pub struct ValidatorView {
    /// The node.
    pub node_id: Seq<u8>,
    /// When it starts, in Unix seconds.
    pub start: u64,
    /// When it ends, in Unix seconds.
    pub end: u64,
    /// Its weight.
    pub wght: u64,
}

impl View for Validator {
    type V = ValidatorView;

    open spec fn view(&self) -> ValidatorView {
        ValidatorView {
            node_id: self.node_id@,
            start: self.start@,
            end: self.end@,
            wght: self.wght@,
        }
    }
}

impl Dup for Validator {
    fn dup(&self) -> (r: Validator) {
        Validator {
            node_id: self.node_id.dup(),
            start: self.start.dup(),
            end: self.end.dup(),
            wght: self.wght.dup(),
        }
    }
}

/// Whether every length of a [`Validator`] fits its field.
#[verifier::opaque]
pub open spec fn validator_fits(v: ValidatorView) -> bool {
    &&& NodeId::fits(v.node_id)
    &&& u64::fits(v.start)
    &&& u64::fits(v.end)
    &&& u64::fits(v.wght)
}

/// The fields of a [`Validator`], in the order in which they are written.
#[verifier::opaque]
pub open spec fn validator_ser(v: ValidatorView) -> Seq<u8> {
    NodeId::ser(v.node_id) + (u64::ser(v.start) + (u64::ser(v.end) + (u64::ser(v.wght))))
}

/// The fields of a [`Validator`] at the start of `s`, and what follows.
#[verifier::opaque]
pub open spec fn validator_de(s: Seq<u8>) -> Read<ValidatorView> {
    match NodeId::de(s) {
        Err(e) => Err(e),
        Ok((node_id, s)) =>
    match u64::de(s) {
        Err(e) => Err(e),
        Ok((start, s)) =>
    match u64::de(s) {
        Err(e) => Err(e),
        Ok((end, s)) =>
    match u64::de(s) {
        Err(e) => Err(e),
        Ok((wght, s)) =>
        Ok((ValidatorView { node_id, start, end, wght }, s)),
    },},},}
}

impl Wire for Validator {
    open spec fn fits(v: ValidatorView) -> bool {
        validator_fits(v)
    }

    open spec fn ser(v: ValidatorView) -> Seq<u8> {
        validator_ser(v)
    }

    open spec fn de(s: Seq<u8>) -> Read<ValidatorView> {
        validator_de(s)
    }

    proof fn round_trip(v: ValidatorView, t: Seq<u8>) {
        reveal(validator_fits);
        reveal(validator_ser);
        reveal(validator_de);
        let r3 = u64::ser(v.wght);
        u64::round_trip(v.wght, t);
        lemma_concat(u64::ser(v.end), r3, t);
        u64::round_trip(v.end, r3 + t);
        let r2 = u64::ser(v.end) + r3;
        lemma_concat(u64::ser(v.start), r2, t);
        u64::round_trip(v.start, r2 + t);
        let r1 = u64::ser(v.start) + r2;
        lemma_concat(NodeId::ser(v.node_id), r1, t);
        NodeId::round_trip(v.node_id, r1 + t);
    }

    proof fn canonical(s: Seq<u8>) {
        reveal(validator_fits);
        reveal(validator_ser);
        reveal(validator_de);
        if let Ok((v, t)) = Self::de(s) {
            NodeId::canonical(s);
            let s1 = (NodeId::de(s)->Ok_0).1;
            u64::canonical(s1);
            let s2 = (u64::de(s1)->Ok_0).1;
            u64::canonical(s2);
            let s3 = (u64::de(s2)->Ok_0).1;
            u64::canonical(s3);
            let r3 = u64::ser(v.wght);
            lemma_concat(u64::ser(v.end), r3, t);
            let r2 = u64::ser(v.end) + r3;
            lemma_concat(u64::ser(v.start), r2, t);
            let r1 = u64::ser(v.start) + r2;
            lemma_concat(NodeId::ser(v.node_id), r1, t);
        }
    }

    fn can_write(&self) -> (r: bool) {
        proof {
            reveal(validator_fits);
        }
        self.node_id.can_write() && self.start.can_write() && self.end.can_write() && self.wght.can_write()
    }

    fn write(&self, out: &mut Vec<u8>) {
        proof {
            reveal(validator_fits);
            reveal(validator_ser);
        }
        self.node_id.write(out);
        self.start.write(out);
        self.end.write(out);
        self.wght.write(out);
        proof {
            let r3 = u64::ser(self.wght@);
            lemma_concat(((old(out)@ + NodeId::ser(self.node_id@)) + u64::ser(self.start@)), u64::ser(self.end@), r3);
            let r2 = u64::ser(self.end@) + r3;
            lemma_concat((old(out)@ + NodeId::ser(self.node_id@)), u64::ser(self.start@), r2);
            let r1 = u64::ser(self.start@) + r2;
            lemma_concat(old(out)@, NodeId::ser(self.node_id@), r1);
        }
    }

    fn read(p: &mut Reader<'_>) -> (r: Result<Validator, CodecError>) {
        proof {
            reveal(validator_de);
        }
        let node_id: NodeId = match NodeId::read(p) {
            Ok(x) => x,
            Err(e) => {
                return Err(e);
            },
        };
        let start: u64 = match u64::read(p) {
            Ok(x) => x,
            Err(e) => {
                return Err(e);
            },
        };
        let end: u64 = match u64::read(p) {
            Ok(x) => x,
            Err(e) => {
                return Err(e);
            },
        };
        let wght: u64 = match u64::read(p) {
            Ok(x) => x,
            Err(e) => {
                return Err(e);
            },
        };
        Ok(Validator { node_id, start, end, wght })
    }
}

} // verus!
