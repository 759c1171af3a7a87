//! The keys and values under which changes of the validator sets are stored.
//!
//! A key holds the height inverted, so that a scan in key order meets the
//! newest height first.
use vstd::prelude::*;

use crate::codec::{be, be_value, lemma_be_be_value, lemma_be_len, lemma_be_ordered, lemma_be_value_be, lemma_pow256, push_u64, read_be, u64_bytes};
use crate::error::{Error, Result};
use crate::ids::{Id, NodeId};
use crate::order::{lemma_lex_leading_block, lemma_lex_shared_prefix, lex_lt};

verus! {

/// The length of the key that a scan of one subnet starts at.
pub const START_DIFF_KEY_LEN: usize = 40;

/// The length of a key.
pub const DIFF_KEY_LEN: usize = 60;

/// The length of a weight change.
pub const WEIGHT_VALUE_LEN: usize = 9;

/// A change of a validator's weight at some height.
#[derive(Clone, Copy, Debug, PartialEq, Eq, Structural)]
pub struct ValidatorWeightDiff {
    /// Whether the weight went down.
    pub decrease: bool,
    /// By how much it changed.
    pub amount: u64,
}

/// The height as it stands in a key.
pub open spec fn inverted(height: u64) -> u64 {
    (u64::MAX - height) as u64
}

/// The key, within the index by subnet, of a change on `node`.
pub open spec fn subnet_diff_key(subnet: Seq<u8>, height: u64, node: Seq<u8>) -> Seq<u8> {
    subnet + be(inverted(height) as nat, 8) + node
}

/// The key, within the index by height, of a change on `node`.
pub open spec fn height_diff_key(height: u64, subnet: Seq<u8>, node: Seq<u8>) -> Seq<u8> {
    be(inverted(height) as nat, 8) + subnet + node
}

/// The bytes of a weight change: the direction, then the amount.
pub open spec fn weight_diff_bytes(d: ValidatorWeightDiff) -> Seq<u8> {
    seq![if d.decrease { 1u8 } else { 0u8 }] + be(d.amount as nat, 8)
}

/// The height inverted.
pub fn inverse_height(height: u64) -> (r: u64)
    ensures
        r == inverted(height),
{
    assert(!height == 0xffff_ffff_ffff_ffffu64 - height) by (bit_vector);
    !height
}

/// The height that `inverse` stands for.
pub fn height_from_inverse(inverse: u64) -> (r: u64)
    ensures
        r == inverted(inverse),
        inverted(r) == inverse,
{
    assert(!inverse == 0xffff_ffff_ffff_ffffu64 - inverse) by (bit_vector);
    !inverse
}

/// The key at which a scan of `subnet` from `height` down starts.
pub fn marshal_start_diff_key_by_subnet_id(subnet_id: Id, height: u64) -> (r: Vec<u8>)
    ensures
        r@ == subnet_id@ + be(inverted(height) as nat, 8),
        r@.len() == START_DIFF_KEY_LEN,
{
    let mut key: Vec<u8> = Vec::new();
    key.extend_from_slice(subnet_id.as_bytes());
    push_u64(&mut key, inverse_height(height));
    proof {
        lemma_be_len(inverted(height) as nat, 8);
    }
    assert(key@ =~= subnet_id@ + be(inverted(height) as nat, 8));
    key
}

/// The key at which a scan of all subnets from `height` down starts.
pub fn marshal_start_diff_key_by_height(height: u64) -> (r: Vec<u8>)
    ensures
        r@ == be(inverted(height) as nat, 8),
{
    u64_bytes(inverse_height(height))
}

/// The key, within the index by subnet, of a change on `node_id` at `height`.
pub fn marshal_diff_key_by_subnet_id(subnet_id: Id, height: u64, node_id: NodeId) -> (r: Vec<u8>)
    ensures
        r@ == subnet_diff_key(subnet_id@, height, node_id@),
        r@.len() == DIFF_KEY_LEN,
{
    let mut key = marshal_start_diff_key_by_subnet_id(subnet_id, height);
    key.extend_from_slice(node_id.as_bytes());
    assert(key@ =~= subnet_diff_key(subnet_id@, height, node_id@));
    key
}

/// The key, within the index by height, of a change on `node_id` at `height`.
pub fn marshal_diff_key_by_height(height: u64, subnet_id: Id, node_id: NodeId) -> (r: Vec<u8>)
    ensures
        r@ == height_diff_key(height, subnet_id@, node_id@),
        r@.len() == DIFF_KEY_LEN,
{
    let mut key = marshal_start_diff_key_by_height(height);
    key.extend_from_slice(subnet_id.as_bytes());
    key.extend_from_slice(node_id.as_bytes());
    proof {
        lemma_be_len(inverted(height) as nat, 8);
    }
    assert(key@ =~= height_diff_key(height, subnet_id@, node_id@));
    key
}

/// What a key of the index by subnet stands for: the subnet, the height and
/// the node. Any 60 bytes are a key.
pub fn unmarshal_diff_key_by_subnet_id(key: &[u8]) -> (r: Result<(Id, u64, NodeId)>)
    ensures
        r is Ok <==> key@.len() == DIFF_KEY_LEN,
        r matches Ok((subnet, height, node)) ==> key@ == subnet_diff_key(subnet@, height, node@),
        r matches Err(e) ==> e == Error::UnexpectedDiffKeyLength,
{
    if key.len() != DIFF_KEY_LEN {
        return Err(Error::UnexpectedDiffKeyLength);
    }
    let subnet_part = slice(key, 0, 32)?;
    let height_part = slice(key, 32, 40)?;
    let node_part = slice(key, 40, 60)?;
    let inverse: u64 = read_u64_be(height_part)?;
    let height: u64 = height_from_inverse(inverse);
    match (Id::from_slice(subnet_part), NodeId::from_slice(node_part)) {
        (Some(subnet), Some(node)) => {
            proof {
                lemma_be_be_value(height_part@);
                assert(key@ =~= subnet_diff_key(subnet@, height, node@));
            }
            Ok((subnet, height, node))
        },
        _ => Err(Error::UnexpectedDiffKeyLength),
    }
}

/// What a key of the index by height stands for: the height, the subnet and
/// the node. Any 60 bytes are a key.
pub fn unmarshal_diff_key_by_height(key: &[u8]) -> (r: Result<(u64, Id, NodeId)>)
    ensures
        r is Ok <==> key@.len() == DIFF_KEY_LEN,
        r matches Ok((height, subnet, node)) ==> key@ == height_diff_key(height, subnet@, node@),
        r matches Err(e) ==> e == Error::UnexpectedDiffKeyLength,
{
    if key.len() != DIFF_KEY_LEN {
        return Err(Error::UnexpectedDiffKeyLength);
    }
    let height_part = slice(key, 0, 8)?;
    let subnet_part = slice(key, 8, 40)?;
    let node_part = slice(key, 40, 60)?;
    let inverse: u64 = read_u64_be(height_part)?;
    let height: u64 = height_from_inverse(inverse);
    match (Id::from_slice(subnet_part), NodeId::from_slice(node_part)) {
        (Some(subnet), Some(node)) => {
            proof {
                lemma_be_be_value(height_part@);
                assert(key@ =~= height_diff_key(height, subnet@, node@));
            }
            Ok((height, subnet, node))
        },
        _ => Err(Error::UnexpectedDiffKeyLength),
    }
}

/// The bytes of a weight change.
pub fn marshal_weight_diff(diff: &ValidatorWeightDiff) -> (r: Vec<u8>)
    ensures
        r@ == weight_diff_bytes(*diff),
        r@.len() == WEIGHT_VALUE_LEN,
{
    let mut value: Vec<u8> = Vec::new();
    if diff.decrease {
        value.push(1u8);
    } else {
        value.push(0u8);
    }
    push_u64(&mut value, diff.amount);
    proof {
        lemma_be_len(diff.amount as nat, 8);
    }
    assert(value@ =~= weight_diff_bytes(*diff));
    value
}

/// The weight change that `value` holds: nine bytes, of which the first tells
/// a decrease by being anything but zero.
pub fn unmarshal_weight_diff(value: &[u8]) -> (r: Result<ValidatorWeightDiff>)
    ensures
        r is Ok <==> value@.len() == WEIGHT_VALUE_LEN,
        r matches Ok(d) ==> d.decrease == (value@[0] != 0) && d.amount == be_value(value@.skip(1)),
        r matches Err(e) ==> e == Error::UnexpectedWeightValueLength,
{
    if value.len() != WEIGHT_VALUE_LEN {
        return Err(Error::UnexpectedWeightValueLength);
    }
    let decrease = value[0] != 0;
    let amount: u64 = read_be(value, 1, 8);
    assert(value@.subrange(1, 9) =~= value@.skip(1));
    Ok(ValidatorWeightDiff { decrease, amount })
}

/// `data[start..end]`, or a failure where the bytes do not reach that far.
fn slice(data: &[u8], start: usize, end: usize) -> (r: Result<&[u8]>)
    ensures
        r is Ok <==> start <= end <= data@.len(),
        r matches Ok(s) ==> s@ == data@.subrange(start as int, end as int),
        r matches Err(e) ==> e == Error::UnexpectedDiffKeyLength,
{
    if start > end || end > data.len() {
        return Err(Error::UnexpectedDiffKeyLength);
    }
    Ok(vstd::slice::slice_subrange(data, start, end))
}

/// The big-endian `u64` that exactly eight bytes hold.
fn read_u64_be(b: &[u8]) -> (r: Result<u64>)
    ensures
        r is Ok <==> b@.len() == 8,
        r matches Ok(v) ==> v == be_value(b@),
        r matches Err(e) ==> e == Error::UnexpectedDiffKeyLength,
{
    if b.len() != 8 {
        return Err(Error::UnexpectedDiffKeyLength);
    }
    assert(b@.subrange(0, 8) =~= b@);
    Ok(read_be(b, 0, 8))
}

/// Inverting a height twice gives it back.
pub proof fn inverse_height_is_involutive(height: u64)
    ensures
        inverted(inverted(height)) == height,
{
}

/// A key of the index by subnet tells its subnet, height and node.
pub proof fn subnet_diff_keys_are_distinct(
    s1: Seq<u8>,
    h1: u64,
    n1: Seq<u8>,
    s2: Seq<u8>,
    h2: u64,
    n2: Seq<u8>,
)
    requires
        s1.len() == 32,
        s2.len() == 32,
    ensures
        subnet_diff_key(s1, h1, n1) == subnet_diff_key(s2, h2, n2) <==> s1 == s2 && h1 == h2 && n1
            == n2,
{
    let a = subnet_diff_key(s1, h1, n1);
    let b = subnet_diff_key(s2, h2, n2);
    lemma_be_len(inverted(h1) as nat, 8);
    lemma_be_len(inverted(h2) as nat, 8);
    lemma_pow256();
    lemma_be_value_be(inverted(h1) as nat, 8);
    lemma_be_value_be(inverted(h2) as nat, 8);
    if a == b {
        assert(a.take(32) =~= s1 && b.take(32) =~= s2);
        assert(a.subrange(32, 40) =~= be(inverted(h1) as nat, 8));
        assert(b.subrange(32, 40) =~= be(inverted(h2) as nat, 8));
        assert(a.skip(40) =~= n1 && b.skip(40) =~= n2);
    }
}

/// A key of the index by height tells its height, subnet and node.
pub proof fn height_diff_keys_are_distinct(
    h1: u64,
    s1: Seq<u8>,
    n1: Seq<u8>,
    h2: u64,
    s2: Seq<u8>,
    n2: Seq<u8>,
)
    requires
        s1.len() == 32,
        s2.len() == 32,
    ensures
        height_diff_key(h1, s1, n1) == height_diff_key(h2, s2, n2) <==> h1 == h2 && s1 == s2 && n1
            == n2,
{
    let a = height_diff_key(h1, s1, n1);
    let b = height_diff_key(h2, s2, n2);
    lemma_be_len(inverted(h1) as nat, 8);
    lemma_be_len(inverted(h2) as nat, 8);
    lemma_pow256();
    lemma_be_value_be(inverted(h1) as nat, 8);
    lemma_be_value_be(inverted(h2) as nat, 8);
    if a == b {
        assert(a.take(8) =~= be(inverted(h1) as nat, 8));
        assert(b.take(8) =~= be(inverted(h2) as nat, 8));
        assert(a.subrange(8, 40) =~= s1 && b.subrange(8, 40) =~= s2);
        assert(a.skip(40) =~= n1 && b.skip(40) =~= n2);
    }
}

/// Within one subnet, the keys of a greater height come first.
pub proof fn subnet_diff_keys_are_newest_first(
    subnet: Seq<u8>,
    h1: u64,
    n1: Seq<u8>,
    h2: u64,
    n2: Seq<u8>,
)
    requires
        h1 > h2,
    ensures
        lex_lt(subnet_diff_key(subnet, h1, n1), subnet_diff_key(subnet, h2, n2)),
{
    let a = be(inverted(h1) as nat, 8);
    let b = be(inverted(h2) as nat, 8);
    lemma_be_len(inverted(h1) as nat, 8);
    lemma_be_len(inverted(h2) as nat, 8);
    lemma_pow256();
    lemma_be_ordered(inverted(h1) as nat, inverted(h2) as nat, 8);
    lemma_lex_leading_block(a, b, n1, n2);
    lemma_lex_shared_prefix(subnet, a + n1, b + n2);
    assert(subnet_diff_key(subnet, h1, n1) =~= subnet + (a + n1));
    assert(subnet_diff_key(subnet, h2, n2) =~= subnet + (b + n2));
}

/// Across all subnets, the keys of a greater height come first.
pub proof fn height_diff_keys_are_newest_first(
    h1: u64,
    s1: Seq<u8>,
    n1: Seq<u8>,
    h2: u64,
    s2: Seq<u8>,
    n2: Seq<u8>,
)
    requires
        h1 > h2,
    ensures
        lex_lt(height_diff_key(h1, s1, n1), height_diff_key(h2, s2, n2)),
{
    let a = be(inverted(h1) as nat, 8);
    let b = be(inverted(h2) as nat, 8);
    lemma_be_len(inverted(h1) as nat, 8);
    lemma_be_len(inverted(h2) as nat, 8);
    lemma_pow256();
    lemma_be_ordered(inverted(h1) as nat, inverted(h2) as nat, 8);
    lemma_lex_leading_block(a, b, s1 + n1, s2 + n2);
    assert(height_diff_key(h1, s1, n1) =~= a + (s1 + n1));
    assert(height_diff_key(h2, s2, n2) =~= b + (s2 + n2));
}

/// The key that a scan starts at begins every key of its height.
pub proof fn start_key_is_a_prefix(subnet: Seq<u8>, height: u64, node: Seq<u8>)
    requires
        subnet.len() == 32,
    ensures
        subnet_diff_key(subnet, height, node).take(40) == subnet + be(inverted(height) as nat, 8),
        height_diff_key(height, subnet, node).take(8) == be(inverted(height) as nat, 8),
{
    lemma_be_len(inverted(height) as nat, 8);
    assert(subnet_diff_key(subnet, height, node).take(40) =~= subnet + be(
        inverted(height) as nat,
        8,
    ));
    assert(height_diff_key(height, subnet, node).take(8) =~= be(inverted(height) as nat, 8));
}

/// A weight change that was written is read back.
pub proof fn weight_diff_round_trip(d: ValidatorWeightDiff)
    ensures
        weight_diff_bytes(d).len() == WEIGHT_VALUE_LEN,
        (weight_diff_bytes(d)[0] != 0) == d.decrease,
        be_value(weight_diff_bytes(d).skip(1)) == d.amount,
{
    lemma_be_len(d.amount as nat, 8);
    lemma_pow256();
    lemma_be_value_be(d.amount as nat, 8);
    assert(weight_diff_bytes(d).skip(1) =~= be(d.amount as nat, 8));
}

} // verus!
