//! What is stored: keys and records are read as they were written, and stored
//! changes lead back.
use vstd::prelude::*;

use crate::codec::{be, lemma_be_len, CodecError};
use crate::error::{Error, Result};
use crate::ids::{Id, NodeId};
use crate::jsonrpc::RpcError;
use crate::service::rpc::{answered, server_err};
use crate::state::diff_iterators::{
    apply_all_validator_public_key_diffs,
    apply_all_validator_weight_diffs,
    apply_validator_public_key_diffs,
    apply_validator_weight_diffs,
    records_keys,
    records_weights,
    set_of,
    undoing_restores_keys,
    undoing_restores_weights,
    AllSets,
    PublicKeyDiffStore,
    ValidatorSet,
    WeightDiffStore,
};
use crate::state::disk_staker_diff_iterator::{
    height_diff_keys_are_distinct,
    height_from_inverse,
    inverse_height,
    marshal_diff_key_by_height,
    marshal_diff_key_by_subnet_id,
    marshal_start_diff_key_by_height,
    marshal_start_diff_key_by_subnet_id,
    marshal_weight_diff,
    subnet_diff_keys_are_distinct,
    unmarshal_diff_key_by_height,
    unmarshal_diff_key_by_subnet_id,
    unmarshal_weight_diff,
    weight_diff_round_trip,
    ValidatorWeightDiff,
};
use crate::state::l1_validator::{l1_record_round_trip, L1Validator};
use crate::state::metadata_validator::ValidatorMetadata;
use crate::state::staker::Staker;
use crate::state::stakers::{lists, Stakers};
use crate::state::undo_agreement::{
    undoing_keys_for_all_undoes_each,
    undoing_weights_for_all_undoes_each,
};

verus! {

/// The key of a change tells its subnet, its height and its node, in either
/// index, and begins with the key at which a scan from that height starts.
pub proof fn keys_of_changes_are_read_back(
    subnet: Id,
    height: u64,
    node: NodeId,
    a: Vec<u8>,
    b: Vec<u8>,
    start_a: Vec<u8>,
    start_b: Vec<u8>,
    bytes_a: &[u8],
    bytes_b: &[u8],
    read_a: Result<(Id, u64, NodeId)>,
    read_b: Result<(u64, Id, NodeId)>,
)
    requires
        call_ensures(marshal_diff_key_by_subnet_id, (subnet, height, node), a),
        call_ensures(marshal_diff_key_by_height, (height, subnet, node), b),
        call_ensures(marshal_start_diff_key_by_subnet_id, (subnet, height), start_a),
        call_ensures(marshal_start_diff_key_by_height, (height,), start_b),
        bytes_a@ == a@,
        bytes_b@ == b@,
        call_ensures(unmarshal_diff_key_by_subnet_id, (bytes_a,), read_a),
        call_ensures(unmarshal_diff_key_by_height, (bytes_b,), read_b),
    ensures
        a@.len() == 60 && b@.len() == 60,
        read_a matches Ok((s, h, n)) && s@ == subnet@ && h == height && n@ == node@,
        read_b matches Ok((h, s, n)) && s@ == subnet@ && h == height && n@ == node@,
        a@.take(40) == start_a@,
        a@.take(32) == subnet@,
        b@.take(8) == start_b@,
{
    let (s, h, n) = read_a->Ok_0;
    subnet_diff_keys_are_distinct(subnet@, height, node@, s@, h, n@);
    let (h2, s2, n2) = read_b->Ok_0;
    height_diff_keys_are_distinct(height, subnet@, node@, h2, s2@, n2@);
    lemma_be_len((u64::MAX - height) as nat, 8);
    assert(a@.take(40) =~= start_a@);
    assert(a@.take(32) =~= subnet@);
    assert(b@.take(8) =~= start_b@);
}

/// A key of another length is none.
pub proof fn other_keys_are_refused(
    key: &[u8],
    a: Result<(Id, u64, NodeId)>,
    b: Result<(u64, Id, NodeId)>,
    value: &[u8],
    d: Result<ValidatorWeightDiff>,
)
    requires
        call_ensures(unmarshal_diff_key_by_subnet_id, (key,), a),
        call_ensures(unmarshal_diff_key_by_height, (key,), b),
        call_ensures(unmarshal_weight_diff, (value,), d),
    ensures
        key@.len() != 60 ==> a is Err && a->Err_0 == Error::UnexpectedDiffKeyLength && b is Err
            && b->Err_0 == Error::UnexpectedDiffKeyLength,
        value@.len() != 9 ==> d is Err && d->Err_0 == Error::UnexpectedWeightValueLength,
{
}

/// A height is inverted by taking it from the greatest one, and inverting twice
/// gives it back.
pub proof fn heights_are_inverted(height: u64, r: u64, back: u64)
    requires
        call_ensures(inverse_height, (height,), r),
        call_ensures(height_from_inverse, (r,), back),
    ensures
        height + r == u64::MAX,
        back == height,
{
}

/// A stored change of a weight is read as it was written.
pub proof fn changes_of_weight_are_read_back(
    d: ValidatorWeightDiff,
    written: Vec<u8>,
    bytes: &[u8],
    read: Result<ValidatorWeightDiff>,
)
    requires
        call_ensures(marshal_weight_diff, (&d,), written),
        bytes@ == written@,
        call_ensures(unmarshal_weight_diff, (bytes,), read),
    ensures
        written@.len() == 9,
        read == Ok::<ValidatorWeightDiff, Error>(d),
{
    weight_diff_round_trip(d);
}

/// Where how the weights of a subnet changed at a height is stored, undoing that
/// height leads back to them: each node has the weight that it had, and one that
/// had none is not in the set.
pub proof fn stored_weights_lead_back(
    store: &WeightDiffStore,
    set: &mut ValidatorSet,
    subnet: Id,
    height: u64,
    before: Map<Seq<u8>, u64>,
    r: Result<()>,
    node: Seq<u8>,
)
    requires
        store.wf(),
        call_ensures(apply_validator_weight_diffs, (store, set, height, height, subnet), r),
        records_weights(store@, subnet@, height, before, old(set)@),
        forall|x: Seq<u8>| #[trigger]
            old(set)@.contains_key(x) ==> old(set)@[x].weight > 0 && x.len() == 20,
        forall|x: Seq<u8>| #[trigger] before.contains_key(x) ==> before[x] > 0 && x.len() == 20,
    ensures
        r is Ok,
        final(set)@.contains_key(node) <==> before.contains_key(node),
        before.contains_key(node) ==> final(set)@[node].weight == before[node],
{
    undoing_restores_weights(
        store.subnet_keys(),
        store.subnet_vals(),
        subnet@,
        height,
        before,
        old(set)@,
    );
}

/// The same of keys: each node of the set has the key that it had.
pub proof fn stored_keys_lead_back(
    store: &PublicKeyDiffStore,
    set: &mut ValidatorSet,
    subnet: Id,
    height: u64,
    before: Map<Seq<u8>, Seq<u8>>,
    r: Result<()>,
    node: Seq<u8>,
)
    requires
        store.wf(),
        call_ensures(apply_validator_public_key_diffs, (store, set, height, height, subnet), r),
        records_keys(store@, subnet@, height, before, old(set)@),
        forall|x: Seq<u8>| #[trigger] before.contains_key(x) ==> before[x].len() > 0,
    ensures
        r is Ok,
        final(set)@.contains_key(node) <==> old(set)@.contains_key(node),
        old(set)@.contains_key(node) ==> final(set)@[node].weight == old(set)@[node].weight,
        old(set)@.contains_key(node) && before.contains_key(node) ==> final(set)@[node].public_key
            == Some(before[node]),
        old(set)@.contains_key(node) && !before.contains_key(node) ==> final(set)@[node].public_key is None,
{
    undoing_restores_keys(
        store.subnet_keys(),
        store.subnet_vals(),
        subnet@,
        height,
        before,
        old(set)@,
    );
}

/// Undoing the weights of all subnets undoes those of each.
pub proof fn all_weights_are_undone_as_each(
    store: &WeightDiffStore,
    all: &mut AllSets,
    one: &mut ValidatorSet,
    subnet: Id,
    from: u64,
    to: u64,
    r: Result<()>,
    s: Result<()>,
)
    requires
        store.wf(),
        call_ensures(apply_all_validator_weight_diffs, (store, all, from, to), r),
        old(one)@ == set_of(old(all)@, subnet@),
        call_ensures(apply_validator_weight_diffs, (store, one, from, to, subnet), s),
        r is Ok,
    ensures
        s is Ok,
        final(one)@ == set_of(final(all)@, subnet@),
{
    undoing_weights_for_all_undoes_each(
        store.subnet_keys(),
        store.subnet_vals(),
        store.height_keys(),
        store.height_vals(),
        old(all)@,
        subnet@,
        from,
        to,
    );
}

/// Undoing the keys of all subnets undoes those of each.
pub proof fn all_keys_are_undone_as_each(
    store: &PublicKeyDiffStore,
    all: &mut AllSets,
    one: &mut ValidatorSet,
    subnet: Id,
    from: u64,
    to: u64,
    r: Result<()>,
    s: Result<()>,
)
    requires
        store.wf(),
        call_ensures(apply_all_validator_public_key_diffs, (store, all, from, to), r),
        old(one)@ == set_of(old(all)@, subnet@),
        call_ensures(apply_validator_public_key_diffs, (store, one, from, to, subnet), s),
    ensures
        r is Ok && s is Ok,
        final(one)@ == set_of(final(all)@, subnet@),
{
    undoing_keys_for_all_undoes_each(
        store.subnet_keys(),
        store.subnet_vals(),
        store.height_keys(),
        store.height_vals(),
        old(all)@,
        subnet@,
        from,
        to,
    );
}

/// The record of an L1 validator is read as it was written, but for its id,
/// which the record does not hold.
pub proof fn l1_records_are_read_back(
    v: L1Validator,
    written: core::result::Result<Vec<u8>, CodecError>,
    bytes: &[u8],
    read: core::result::Result<L1Validator, CodecError>,
)
    requires
        call_ensures(L1Validator::marshal, (&v,), written),
        written is Ok ==> bytes@ == written->Ok_0@,
        call_ensures(L1Validator::unmarshal, (bytes,), read),
    ensures
        v.public_key@.len() <= u32::MAX && v.remaining_balance_owner@.len() <= u32::MAX
            && v.deactivation_owner@.len() <= u32::MAX <==> written is Ok,
        written is Ok ==> read is Ok && read->Ok_0@ == (crate::state::l1_validator::L1View {
            validation_id: crate::ids::empty_id(),
            ..v@
        }),
{
    if written is Ok {
        l1_record_round_trip(v@);
    }
}

/// The record of an L1 validator holds its version, its subnet and its node, its
/// key and its two owners behind their lengths, and its four numbers, in this
/// order.
pub proof fn l1_record_layout(
    v: L1Validator,
    written: core::result::Result<Vec<u8>, CodecError>,
)
    requires
        call_ensures(L1Validator::marshal, (&v,), written),
        written is Ok,
    ensures
        ({
            let numbers = be(v.start_time as nat, 8) + (be(v.weight as nat, 8) + (be(
                v.min_nonce as nat,
                8,
            ) + be(v.end_accumulated_fee as nat, 8)));
            let key = be(v.public_key@.len(), 4) + v.public_key@;
            let first = be(v.remaining_balance_owner@.len(), 4) + v.remaining_balance_owner@;
            let second = be(v.deactivation_owner@.len(), 4) + v.deactivation_owner@;
            written->Ok_0@ == seq![0u8, 0u8] + (v.subnet_id@ + (v.node_id@ + (key + (first + (second
                + numbers)))))
        }),
{
    reveal_with_fuel(be, 3);
    assert(be(0, 2) =~= seq![0u8, 0u8]);
}

/// Metadata is written as its version and the numbers that the version has, in
/// this order.
pub proof fn metadata_layout(
    m: ValidatorMetadata,
    version: u16,
    written: core::result::Result<Vec<u8>, CodecError>,
)
    requires
        call_ensures(ValidatorMetadata::marshal, (&m, version), written),
    ensures
        version > 2 ==> written is Err && written->Err_0 == CodecError::UnknownVersion,
        version <= 2 ==> {
            let v0 = be(version as nat, 2) + be(m.up_duration as nat, 8) + be(
                m.last_updated as nat,
                8,
            ) + be(m.potential_reward as nat, 8) + be(m.potential_delegatee_reward as nat, 8);
            let v1 = v0 + be(m.staker_start_time as nat, 8);
            let v2 = v1 + be(m.accrued_validation_rewards as nat, 8) + be(
                m.accrued_delegatee_rewards as nat,
                8,
            ) + be(m.auto_compound_reward_shares as nat, 4) + be(m.next_period as nat, 8) + be(
                m.staker_end_time as nat,
                8,
            );
            &&& written is Ok
            &&& version == 0 ==> written->Ok_0@ =~= v0
            &&& version == 1 ==> written->Ok_0@ =~= v1
            &&& version == 2 ==> written->Ok_0@ =~= v2
        },
{
}

/// A node's validator is found in a set of stakers by its subnet and node, and
/// the set lists as many stakers as it says, one at each place.
pub proof fn sets_of_stakers_are_read(
    s: &Stakers,
    subnet: Id,
    node: NodeId,
    r: Option<Staker>,
    list: Vec<Staker>,
    n: usize,
    i: usize,
    x: Staker,
)
    requires
        s.wf(),
        call_ensures(Stakers::get_validator, (s, subnet, node), r),
        call_ensures(Stakers::to_vec, (s,), list),
        call_ensures(Stakers::len, (s,), n),
        i < n,
        call_ensures(Stakers::at, (s, i), x),
    ensures
        r matches Some(v) ==> v.subnet_id@ == subnet@ && v.node_id@ == node@,
        lists(s@.set, list@),
        list@.contains(x),
{
    if let Some(v) = r {
        crate::state::staker::lemma_member_key(v.subnet_id@, v.node_id@, subnet@, node@);
    }
    let all = s.in_order();
    assert(all[i as int] == x);
    assert(s@.set.contains_key(crate::state::staker::order_key(all[i as int])));
    let j = choose|j: int|
        0 <= j < list@.len() && crate::state::staker::order_key(#[trigger] list@[j])
            == crate::state::staker::order_key(x);
    assert(list@[j] == x);
}

/// A failure of the service is answered with the code of servers and all that
/// the failure says, and an answer is passed on.
pub proof fn failures_are_answered<T>(
    e: Error,
    said: String,
    v: T,
    refused: RpcError,
    a: core::result::Result<T, RpcError>,
    b: core::result::Result<T, RpcError>,
)
    requires
        call_ensures(Error::message, (&e,), said),
        call_ensures(server_err, (e,), refused),
        call_ensures(answered::<T>, (Ok::<T, Error>(v),), a),
        call_ensures(answered::<T>, (Err::<T, Error>(e),), b),
    ensures
        refused.code == -32000 && refused.message@ == said@ && refused.data is None,
        a == Ok::<T, RpcError>(v),
        b is Err && b->Err_0.code == -32000 && b->Err_0.message@ == said@,
{
}

} // verus!
