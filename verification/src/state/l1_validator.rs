//! L1 validators: the validators of subnets that pay for their place.
use std::cmp::Ordering;
use vstd::prelude::*;

use crate::codec::{be, lemma_be_len, lemma_be_ordered, lemma_pow256, lemma_rd_be, lemma_rd_be_sound, lemma_rd_bytes, lemma_rd_bytes_sound, lemma_rd_fixed, lemma_rd_fixed_sound, prefixed, push_bytes, push_fixed, push_u16, push_u64, rd_be, rd_bytes, rd_fixed, CodecError, Reader};
use crate::collections::ordmap::{Dup, Key};
use crate::ids::{empty_id, Id, NodeId};
use crate::order::{bytes_copy, bytes_eq, lemma_lex_antisymmetric, lemma_lex_leading_block, lemma_lex_shared_prefix, lemma_lex_total, lemma_lex_transitive, lex_lt};

verus! {

/// The codec version that records are written under.
pub const CODEC_VERSION: u16 = 0;

/// An L1 validator.
#[derive(Debug, PartialEq, Eq)]
pub struct L1Validator {
    /// The id of the validation, which is not part of the record's bytes.
    pub validation_id: Id,
    /// The subnet that is validated.
    pub subnet_id: Id,
    /// The validating node.
    pub node_id: NodeId,
    /// The node's BLS key in uncompressed form.
    pub public_key: Vec<u8>,
    /// The owner of the balance that is left over, encoded.
    pub remaining_balance_owner: Vec<u8>,
    /// The owner who may deactivate the validator, encoded.
    pub deactivation_owner: Vec<u8>,
    /// When the validation started, in Unix seconds.
    pub start_time: u64,
    /// The validator's weight; without one it is not in the set.
    pub weight: u64,
    /// The smallest nonce that may change the weight.
    pub min_nonce: u64,
    /// The accumulated fee at which the validator is deactivated; zero where
    /// it is inactive.
    pub end_accumulated_fee: u64,
}

/// What an [`L1Validator`] holds.
#[verifier::ext_equal]
pub struct L1View {
    /// The id of the validation.
    pub validation_id: Seq<u8>,
    /// The subnet that is validated.
    pub subnet_id: Seq<u8>,
    /// The validating node.
    pub node_id: Seq<u8>,
    /// The node's BLS key.
    pub public_key: Seq<u8>,
    /// The owner of the balance that is left over.
    pub remaining_balance_owner: Seq<u8>,
    /// The owner who may deactivate the validator.
    pub deactivation_owner: Seq<u8>,
    /// When the validation started.
    pub start_time: u64,
    /// The validator's weight.
    pub weight: u64,
    /// The smallest nonce that may change the weight.
    pub min_nonce: u64,
    /// The accumulated fee at which the validator is deactivated.
    pub end_accumulated_fee: u64,
}

impl View for L1Validator {
    type V = L1View;

    open spec fn view(&self) -> L1View {
        L1View {
            validation_id: self.validation_id@,
            subnet_id: self.subnet_id@,
            node_id: self.node_id@,
            public_key: self.public_key@,
            remaining_balance_owner: self.remaining_balance_owner@,
            deactivation_owner: self.deactivation_owner@,
            start_time: self.start_time,
            weight: self.weight,
            min_nonce: self.min_nonce,
            end_accumulated_fee: self.end_accumulated_fee,
        }
    }
}

impl L1View {
    /// Whether the validator is active: it has a weight and has not run out of
    /// fees.
    pub open spec fn active(self) -> bool {
        self.weight != 0 && self.end_accumulated_fee != 0
    }

    /// Whether the lengths fit the fields that they are written in.
    pub open spec fn fits(self) -> bool {
        &&& self.subnet_id.len() == 32
        &&& self.node_id.len() == 20
        &&& self.public_key.len() <= u32::MAX
        &&& self.remaining_balance_owner.len() <= u32::MAX
        &&& self.deactivation_owner.len() <= u32::MAX
    }
}

/// The fields of a record in the order in which they are written.
pub open spec fn l1_fields(v: L1View) -> Seq<u8> {
    v.subnet_id + (v.node_id + (prefixed(v.public_key) + (prefixed(v.remaining_balance_owner) + (
    prefixed(v.deactivation_owner) + (be(v.start_time as nat, 8) + (be(v.weight as nat, 8) + (be(
        v.min_nonce as nat,
        8,
    ) + be(v.end_accumulated_fee as nat, 8))))))))
}

/// The bytes of a record: the codec version and the fields.
pub open spec fn l1_bytes(v: L1View) -> Seq<u8> {
    be(CODEC_VERSION as nat, 2) + l1_fields(v)
}

/// The fields at the start of `s`, and what follows. The id of the validation
/// is not among them.
pub open spec fn rd_l1_fields(s: Seq<u8>) -> Option<(L1View, Seq<u8>)> {
    match rd_fixed(s, 32) {
        None => None,
        Some((subnet_id, s)) => match rd_fixed(s, 20) {
            None => None,
            Some((node_id, s)) => match rd_bytes(s) {
                None => None,
                Some((public_key, s)) => match rd_bytes(s) {
                    None => None,
                    Some((remaining_balance_owner, s)) => match rd_bytes(s) {
                        None => None,
                        Some((deactivation_owner, s)) => match rd_be(s, 8) {
                            None => None,
                            Some((start_time, s)) => match rd_be(s, 8) {
                                None => None,
                                Some((weight, s)) => match rd_be(s, 8) {
                                    None => None,
                                    Some((min_nonce, s)) => match rd_be(s, 8) {
                                        None => None,
                                        Some((end_accumulated_fee, s)) => Some(
                                            (
                                                L1View {
                                                    validation_id: empty_id(),
                                                    subnet_id,
                                                    node_id,
                                                    public_key,
                                                    remaining_balance_owner,
                                                    deactivation_owner,
                                                    start_time: start_time as u64,
                                                    weight: weight as u64,
                                                    min_nonce: min_nonce as u64,
                                                    end_accumulated_fee: end_accumulated_fee as u64,
                                                },
                                                s,
                                            ),
                                        ),
                                    },
                                },
                            },
                        },
                    },
                },
            },
        },
    }
}

/// The record that `bytes` hold, or why they hold none.
pub open spec fn l1_read(bytes: Seq<u8>) -> Result<L1View, CodecError> {
    match rd_be(bytes, 2) {
        None => Err(CodecError::InsufficientLength),
        Some((version, s)) => if version != CODEC_VERSION {
            Err(CodecError::UnknownVersion)
        } else {
            match rd_l1_fields(s) {
                None => Err(CodecError::InsufficientLength),
                Some((v, rest)) => if rest.len() != 0 {
                    Err(CodecError::ExtraSpace)
                } else {
                    Ok(v)
                },
            }
        },
    }
}

spec fn l1_fields_then(v: L1View, t: Seq<u8>) -> Seq<u8> {
    v.subnet_id + (v.node_id + (prefixed(v.public_key) + (prefixed(v.remaining_balance_owner) + (
    prefixed(v.deactivation_owner) + (be(v.start_time as nat, 8) + (be(v.weight as nat, 8) + (be(
        v.min_nonce as nat,
        8,
    ) + (be(v.end_accumulated_fee as nat, 8) + t))))))))
}

proof fn lemma_l1_fields_then(v: L1View, t: Seq<u8>)
    ensures
        l1_fields(v) + t == l1_fields_then(v, t),
{
    assert(l1_fields(v) + t =~= l1_fields_then(v, t));
}

proof fn lemma_l1_fields(v: L1View, t: Seq<u8>)
    requires
        v.fits(),
        v.validation_id == empty_id(),
    ensures
        rd_l1_fields(l1_fields(v) + t) == Some((v, t)),
{
    lemma_pow256();
    let s9 = t;
    let s8 = be(v.end_accumulated_fee as nat, 8) + s9;
    let s7 = be(v.min_nonce as nat, 8) + s8;
    let s6 = be(v.weight as nat, 8) + s7;
    let s5 = be(v.start_time as nat, 8) + s6;
    let s4 = prefixed(v.deactivation_owner) + s5;
    let s3 = prefixed(v.remaining_balance_owner) + s4;
    let s2 = prefixed(v.public_key) + s3;
    let s1 = v.node_id + s2;
    lemma_l1_fields_then(v, t);
    lemma_rd_fixed(v.subnet_id, s1);
    lemma_rd_fixed(v.node_id, s2);
    lemma_rd_bytes(v.public_key, s3);
    lemma_rd_bytes(v.remaining_balance_owner, s4);
    lemma_rd_bytes(v.deactivation_owner, s5);
    lemma_rd_be(v.start_time as nat, 8, s6);
    lemma_rd_be(v.weight as nat, 8, s7);
    lemma_rd_be(v.min_nonce as nat, 8, s8);
    lemma_rd_be(v.end_accumulated_fee as nat, 8, s9);
}

proof fn lemma_l1_fields_sound(s: Seq<u8>)
    ensures
        rd_l1_fields(s) matches Some((v, t)) ==> v.fits() && s == l1_fields(v) + t,
{
    lemma_pow256();
    if let Some((v, t)) = rd_l1_fields(s) {
        lemma_rd_fixed_sound(s, 32);
        let s1 = (rd_fixed(s, 32)->0).1;
        lemma_rd_fixed_sound(s1, 20);
        let s2 = (rd_fixed(s1, 20)->0).1;
        lemma_rd_bytes_sound(s2);
        let s3 = (rd_bytes(s2)->0).1;
        lemma_rd_bytes_sound(s3);
        let s4 = (rd_bytes(s3)->0).1;
        lemma_rd_bytes_sound(s4);
        let s5 = (rd_bytes(s4)->0).1;
        lemma_rd_be_sound(s5, 8);
        let s6 = (rd_be(s5, 8)->0).1;
        lemma_rd_be_sound(s6, 8);
        let s7 = (rd_be(s6, 8)->0).1;
        lemma_rd_be_sound(s7, 8);
        let s8 = (rd_be(s7, 8)->0).1;
        lemma_rd_be_sound(s8, 8);
        lemma_l1_fields_then(v, t);
    }
}

/// A record that was written is read back, all but the id of its validation.
pub proof fn l1_record_round_trip(v: L1View)
    requires
        v.fits(),
    ensures
        l1_read(l1_bytes(v)) == Ok::<L1View, CodecError>(
            L1View { validation_id: empty_id(), ..v },
        ),
{
    let w = L1View { validation_id: empty_id(), ..v };
    lemma_pow256();
    lemma_rd_be(CODEC_VERSION as nat, 2, l1_fields(w));
    lemma_l1_fields(w, Seq::empty());
    assert(l1_fields(w) + Seq::<u8>::empty() =~= l1_fields(w));
}

/// Bytes that are read as a record are the record's bytes.
pub proof fn l1_record_bytes_are_canonical(bytes: Seq<u8>)
    ensures
        l1_read(bytes) matches Ok(v) ==> l1_bytes(v) == bytes,
{
    if let Ok(v) = l1_read(bytes) {
        lemma_rd_be_sound(bytes, 2);
        let s = (rd_be(bytes, 2)->0).1;
        lemma_l1_fields_sound(s);
        assert(l1_bytes(v) =~= bytes);
    }
}

/// What validators are charged in the order of: the fee at which they run out,
/// then the id of the validation.
pub open spec fn l1_order_key(v: L1View) -> Seq<u8> {
    be(v.end_accumulated_fee as nat, 8) + v.validation_id
}

/// Whether `a` is charged before `b`.
pub open spec fn l1_before(a: L1View, b: L1View) -> bool {
    ||| a.end_accumulated_fee < b.end_accumulated_fee
    ||| a.end_accumulated_fee == b.end_accumulated_fee && lex_lt(a.validation_id, b.validation_id)
}

proof fn lemma_l1_before_key(a: L1View, b: L1View)
    requires
        l1_before(a, b),
    ensures
        lex_lt(l1_order_key(a), l1_order_key(b)),
{
    lemma_be_len(a.end_accumulated_fee as nat, 8);
    lemma_be_len(b.end_accumulated_fee as nat, 8);
    lemma_pow256();
    if a.end_accumulated_fee < b.end_accumulated_fee {
        lemma_be_ordered(a.end_accumulated_fee as nat, b.end_accumulated_fee as nat, 8);
        lemma_lex_leading_block(
            be(a.end_accumulated_fee as nat, 8),
            be(b.end_accumulated_fee as nat, 8),
            a.validation_id,
            b.validation_id,
        );
    } else {
        lemma_lex_shared_prefix(
            be(a.end_accumulated_fee as nat, 8),
            a.validation_id,
            b.validation_id,
        );
    }
}

/// The order of the keys is the order of the validators.
pub proof fn lemma_l1_order_key(a: L1View, b: L1View)
    ensures
        lex_lt(l1_order_key(a), l1_order_key(b)) <==> l1_before(a, b),
        l1_order_key(a) == l1_order_key(b) <==> a.end_accumulated_fee == b.end_accumulated_fee
            && a.validation_id == b.validation_id,
{
    lemma_lex_total(a.validation_id, b.validation_id);
    if l1_before(a, b) {
        lemma_l1_before_key(a, b);
        lemma_lex_antisymmetric(l1_order_key(a), l1_order_key(b));
    }
    if l1_before(b, a) {
        lemma_l1_before_key(b, a);
        lemma_lex_antisymmetric(l1_order_key(b), l1_order_key(a));
    }
    if lex_lt(a.validation_id, b.validation_id) {
        lemma_lex_antisymmetric(a.validation_id, b.validation_id);
    }
    if lex_lt(b.validation_id, a.validation_id) {
        lemma_lex_antisymmetric(b.validation_id, a.validation_id);
    }
    if a.end_accumulated_fee == b.end_accumulated_fee && a.validation_id == b.validation_id {
        if lex_lt(l1_order_key(a), l1_order_key(b)) {
            lemma_lex_antisymmetric(l1_order_key(a), l1_order_key(b));
        }
    }
}

/// The order of L1 validators is total.
pub proof fn l1_order_is_total(a: L1View, b: L1View, c: L1View)
    ensures
        !l1_before(a, a),
        l1_before(a, b) ==> !l1_before(b, a),
        l1_before(a, b) && l1_before(b, c) ==> l1_before(a, c),
        l1_before(a, b) || l1_before(b, a) || (a.end_accumulated_fee == b.end_accumulated_fee
            && a.validation_id == b.validation_id),
{
    lemma_l1_order_key(a, a);
    lemma_l1_order_key(a, b);
    lemma_l1_order_key(b, a);
    lemma_l1_order_key(b, c);
    lemma_l1_order_key(a, c);
    lemma_lex_total(l1_order_key(a), l1_order_key(b));
    if lex_lt(l1_order_key(a), l1_order_key(a)) {
        lemma_lex_antisymmetric(l1_order_key(a), l1_order_key(a));
    }
    if l1_before(a, b) {
        lemma_lex_antisymmetric(l1_order_key(a), l1_order_key(b));
        if l1_before(b, c) {
            lemma_lex_transitive(l1_order_key(a), l1_order_key(b), l1_order_key(c));
        }
    }
}

impl Dup for L1Validator {
    fn dup(&self) -> (r: L1Validator) {
        L1Validator {
            validation_id: self.validation_id,
            subnet_id: self.subnet_id,
            node_id: self.node_id,
            public_key: bytes_copy(self.public_key.as_slice()),
            remaining_balance_owner: bytes_copy(self.remaining_balance_owner.as_slice()),
            deactivation_owner: bytes_copy(self.deactivation_owner.as_slice()),
            start_time: self.start_time,
            weight: self.weight,
            min_nonce: self.min_nonce,
            end_accumulated_fee: self.end_accumulated_fee,
        }
    }
}

impl L1Validator {
    /// The record's bytes. A byte string whose length does not fit its field
    /// is refused.
    pub fn marshal(&self) -> (r: Result<Vec<u8>, CodecError>)
        ensures
            r is Ok <==> self@.fits(),
            r matches Ok(b) ==> b@ == l1_bytes(self@),
            r matches Err(e) ==> e == CodecError::LengthOverflow,
    {
        if self.public_key.len() > 0xffff_ffff || self.remaining_balance_owner.len() > 0xffff_ffff
            || self.deactivation_owner.len() > 0xffff_ffff {
            return Err(CodecError::LengthOverflow);
        }
        let mut out: Vec<u8> = Vec::new();
        push_u16(&mut out, CODEC_VERSION);
        push_fixed(&mut out, self.subnet_id.as_bytes());
        push_fixed(&mut out, self.node_id.as_bytes());
        push_bytes(&mut out, self.public_key.as_slice());
        push_bytes(&mut out, self.remaining_balance_owner.as_slice());
        push_bytes(&mut out, self.deactivation_owner.as_slice());
        push_u64(&mut out, self.start_time);
        push_u64(&mut out, self.weight);
        push_u64(&mut out, self.min_nonce);
        push_u64(&mut out, self.end_accumulated_fee);
        assert(out@ =~= l1_bytes(self@));
        Ok(out)
    }

    /// The record that `bytes` hold. The id of the validation is left empty.
    pub fn unmarshal(bytes: &[u8]) -> (r: Result<L1Validator, CodecError>)
        ensures
            match l1_read(bytes@) {
                Ok(v) => r is Ok && r->Ok_0@ == v,
                Err(e) => r is Err && r->Err_0 == e,
            },
    {
        let mut p = Reader::new(bytes);
        let version: u16 = match p.take_u16() {
            Some(v) => v,
            None => {
                return Err(CodecError::InsufficientLength);
            },
        };
        if version != CODEC_VERSION {
            return Err(CodecError::UnknownVersion);
        }
        match L1Validator::unmarshal_fields(&mut p) {
            Some(v) => if p.done() {
                Ok(v)
            } else {
                Err(CodecError::ExtraSpace)
            },
            None => Err(CodecError::InsufficientLength),
        }
    }

    fn unmarshal_fields(p: &mut Reader<'_>) -> (r: Option<L1Validator>)
        ensures
            match rd_l1_fields(old(p).rest()) {
                Some((v, t)) => r is Some && r->0@ == v && final(p).rest() == t,
                None => r is None,
            },
    {
        let subnet_id = p.take_id()?;
        let node_id = p.take_node_id()?;
        let public_key = p.take_bytes()?;
        let remaining_balance_owner = p.take_bytes()?;
        let deactivation_owner = p.take_bytes()?;
        let start_time: u64 = p.take_u64()?;
        let weight: u64 = p.take_u64()?;
        let min_nonce: u64 = p.take_u64()?;
        let end_accumulated_fee: u64 = p.take_u64()?;
        Some(
            L1Validator {
                validation_id: Id::empty(),
                subnet_id,
                node_id,
                public_key,
                remaining_balance_owner,
                deactivation_owner,
                start_time,
                weight,
                min_nonce,
                end_accumulated_fee,
            },
        )
    }

    /// How the two validators are ordered: by the fee at which they run out,
    /// then by the id of the validation.
    pub fn compare(&self, other: &L1Validator) -> (r: Ordering)
        ensures
            r == Ordering::Less <==> l1_before(self@, other@),
            r == Ordering::Greater <==> l1_before(other@, self@),
            r == Ordering::Equal <==> self.end_accumulated_fee == other.end_accumulated_fee
                && self.validation_id@ == other.validation_id@,
    {
        proof {
            l1_order_is_total(self@, other@, self@);
            l1_order_is_total(other@, self@, other@);
        }
        if self.end_accumulated_fee < other.end_accumulated_fee {
            Ordering::Less
        } else if other.end_accumulated_fee < self.end_accumulated_fee {
            Ordering::Greater
        } else if self.validation_id.precedes(&other.validation_id) {
            Ordering::Less
        } else if other.validation_id.precedes(&self.validation_id) {
            Ordering::Greater
        } else {
            Ordering::Equal
        }
    }

    /// Whether the validator is active.
    pub fn is_active(&self) -> (r: bool)
        ensures
            r == self@.active(),
    {
        self.weight != 0 && self.end_accumulated_fee != 0
    }

    /// Whether the validator has been removed from the set.
    pub fn is_deleted(&self) -> (r: bool)
        ensures
            r == (self.weight == 0),
    {
        self.weight == 0
    }

    /// Whether `other` may stand for the same validator: it is another
    /// validation, or no field that is constant over a validation differs.
    pub fn immutable_fields_are_unmodified(&self, other: &L1Validator) -> (r: bool)
        ensures
            r == (self@.validation_id == other@.validation_id ==> {
                &&& self@.subnet_id == other@.subnet_id
                &&& self@.node_id == other@.node_id
                &&& self@.public_key == other@.public_key
                &&& self@.remaining_balance_owner == other@.remaining_balance_owner
                &&& self@.deactivation_owner == other@.deactivation_owner
                &&& self@.start_time == other@.start_time
            }),
    {
        if !self.validation_id.same(&other.validation_id) {
            return true;
        }
        self.subnet_id.same(&other.subnet_id) && self.node_id.same(&other.node_id) && bytes_eq(
            self.public_key.as_slice(),
            other.public_key.as_slice(),
        ) && bytes_eq(
            self.remaining_balance_owner.as_slice(),
            other.remaining_balance_owner.as_slice(),
        ) && bytes_eq(self.deactivation_owner.as_slice(), other.deactivation_owner.as_slice())
            && self.start_time == other.start_time
    }
}

} // verus!
