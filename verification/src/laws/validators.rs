//! Validator sets: what the stakers of a node add up to, and how stored changes
//! lead back.
use vstd::prelude::*;

use crate::codec::be;
use crate::collections::ordmap::OrdMap;
use crate::ids::{Id, NodeId};
use crate::state::chain::Chain;
use crate::state::diff_iterators::{lemma_subnet_key_parts, stored_diff, undo_public_keys, undo_weights, weight_change, SetView, WeightDiffStore};
use crate::state::disk_staker_diff_iterator::{subnet_diff_key, weight_diff_bytes, weight_diff_round_trip, ValidatorWeightDiff};
use crate::state::staker::{lemma_member_key, member_key, MemberKey, Staker};
use crate::state::stakers::lists;
use crate::state::state::State;
use crate::state::validator_sets::{has_staker, has_validator, has_validators, keys_upto, lemma_listing, node_keys, node_weights, subnet_sets, weight_total, with_key_changes, with_weight_changes};

verus! {

/// The weight of a node, which is zero where there is none.
pub open spec fn weighs(w: Map<Seq<u8>, u64>, subnet: Seq<u8>, node: Seq<u8>) -> int {
    if w.contains_key(member_key(subnet, node)) {
        w[member_key(subnet, node)] as int
    } else {
        0
    }
}

proof fn lemma_total_push(list: Seq<Staker>, s: Staker, n: nat, k: Seq<u8>)
    requires
        n <= list.len(),
    ensures
        weight_total(list.push(s), n, k) == weight_total(list, n, k),
        has_staker(list.push(s), n, k) == has_staker(list, n, k),
    decreases n,
{
    let more = list.push(s);
    if n > 0 {
        lemma_total_push(list, s, (n - 1) as nat, k);
        assert(more[n - 1] == list[n - 1]);
    }
    if has_staker(list, n, k) {
        let i = choose|i: int|
            0 <= i < n && (#[trigger] list[i]).priority.current()
                && crate::state::stakers::member_of(list[i]) == k;
        assert(more[i] == list[i]);
    }
    if has_staker(more, n, k) {
        let i = choose|i: int|
            0 <= i < n && (#[trigger] more[i]).priority.current()
                && crate::state::stakers::member_of(more[i]) == k;
        assert(more[i] == list[i]);
    }
}

proof fn lemma_no_staker(list: Seq<Staker>, n: nat, k: Seq<u8>)
    requires
        n <= list.len(),
        !has_staker(list, n, k),
    ensures
        weight_total(list, n, k) == 0,
    decreases n,
{
    if n > 0 {
        assert forall|i: int| 0 <= i < n - 1 implies !((#[trigger] list[i]).priority.current()
            && crate::state::stakers::member_of(list[i]) == k) by {}
        lemma_no_staker(list, (n - 1) as nat, k);
        assert(!(list[n - 1].priority.current() && crate::state::stakers::member_of(list[n - 1])
            == k));
    }
}

/// One staker more adds its weight to that of its node, as far as that can be
/// told, where it is a current one, and to no other; one that is not current
/// adds nothing. No stakers weigh nothing.
pub proof fn every_current_staker_weighs(
    list: &Vec<Staker>,
    more: &Vec<Staker>,
    s: Staker,
    r: OrdMap<MemberKey, u64>,
    q: OrdMap<MemberKey, u64>,
    subnet: Id,
    node: NodeId,
)
    requires
        more@ == list@.push(s),
        call_ensures(node_weights, (list,), r),
        call_ensures(node_weights, (more,), q),
    ensures
        ({
            let before = weighs(r@, subnet@, node@);
            let after = weighs(q@, subnet@, node@);
            let own = s.subnet_id@ == subnet@ && s.node_id@ == node@;
            &&& list@.len() == 0 ==> before == 0
            &&& !own || s.priority.ordinal() < 7 ==> after == before
            &&& own && s.priority.ordinal() >= 7 && before + s.weight <= u64::MAX ==> after == before
                + s.weight
            &&& own && s.priority.ordinal() >= 7 && before + s.weight > u64::MAX ==> after
                == u64::MAX
            &&& own && s.priority.ordinal() >= 7 ==> q@.contains_key(member_key(subnet@, node@))
        }),
{
    let k = member_key(subnet@, node@);
    let n = list@.len();
    lemma_total_push(list@, s, n, k);
    assert(s.subnet_id@.len() == 32 && subnet@.len() == 32);
    lemma_member_key(s.subnet_id@, s.node_id@, subnet@, node@);
    assert(more@[n as int] == s);
    if !has_staker(list@, n, k) {
        lemma_no_staker(list@, n, k);
    } else {
        assert(has_staker(more@, n, k));
        let i = choose|i: int|
            0 <= i < n && (#[trigger] more@[i]).priority.current()
                && crate::state::stakers::member_of(more@[i]) == k;
        assert(more@[i].priority.current());
    }
    if has_staker(more@, n + 1, k) && !(s.priority.current()
        && crate::state::stakers::member_of(s) == k) {
        let i = choose|i: int|
            0 <= i < n + 1 && (#[trigger] more@[i]).priority.current()
                && crate::state::stakers::member_of(more@[i]) == k;
        assert(more@[i] == list@[i]);
        assert(has_staker(list@, n, k));
    }
}

proof fn lemma_keys(list: Seq<Staker>, n: nat, k: Seq<u8>)
    requires
        n <= list.len(),
    ensures
        keys_upto(list, n).contains_key(k) <==> exists|i: int|
            0 <= i < n && (#[trigger] list[i]).priority.current_validator()
                && list[i].public_key is Some && crate::state::stakers::member_of(list[i]) == k,
        keys_upto(list, n).contains_key(k) ==> exists|i: int|
            0 <= i < n && (#[trigger] list[i]).priority.current_validator()
                && list[i].public_key is Some && crate::state::stakers::member_of(list[i]) == k
                && list[i].public_key->0.uncompressed@ == keys_upto(list, n)[k],
    decreases n,
{
    if n > 0 {
        lemma_keys(list, (n - 1) as nat, k);
        let s = list[n - 1];
        let here = s.priority.current_validator() && s.public_key is Some
            && crate::state::stakers::member_of(s) == k;
        if here {
            assert(list[n - 1].priority.current_validator());
        } else if keys_upto(list, n).contains_key(k) {
            let i = choose|i: int|
                0 <= i < n - 1 && (#[trigger] list[i]).priority.current_validator()
                    && list[i].public_key is Some && crate::state::stakers::member_of(list[i]) == k
                    && list[i].public_key->0.uncompressed@ == keys_upto(list, (n - 1) as nat)[k];
            assert(list[i].priority.current_validator());
        }
    }
}

/// A node has a key just where one of its current validators has one, and it is
/// such a one's, in uncompressed form.
pub proof fn keys_are_those_of_validators(
    list: &Vec<Staker>,
    r: OrdMap<MemberKey, Vec<u8>>,
    subnet: Id,
    node: NodeId,
)
    requires
        call_ensures(node_keys, (list,), r),
    ensures
        ({
            let k = member_key(subnet@, node@);
            &&& r@.contains_key(k) <==> exists|i: int|
                0 <= i < list@.len() && ((#[trigger] list@[i]).priority.ordinal() == 7
                    || list@[i].priority.ordinal() == 9 || list@[i].priority.ordinal() == 11)
                    && list@[i].public_key is Some && list@[i].subnet_id@ == subnet@
                    && list@[i].node_id@ == node@
            &&& r@.contains_key(k) ==> exists|i: int|
                0 <= i < list@.len() && (#[trigger] list@[i]).priority.ordinal() >= 7
                    && list@[i].public_key is Some && list@[i].subnet_id@ == subnet@
                    && list@[i].node_id@ == node@ && r@[k]
                    == list@[i].public_key->0.uncompressed@
        }),
{
    let k = member_key(subnet@, node@);
    let n = list@.len();
    lemma_keys(list@, n, k);
    assert forall|i: int| 0 <= i < n implies (crate::state::stakers::member_of(
        #[trigger] list@[i],
    ) == k <==> list@[i].subnet_id@ == subnet@ && list@[i].node_id@ == node@) by {
        assert(list@[i].subnet_id@.len() == 32 && subnet@.len() == 32);
        lemma_member_key(list@[i].subnet_id@, list@[i].node_id@, subnet@, node@);
    }
    if r@.contains_key(k) {
        let i = choose|i: int|
            0 <= i < n && (#[trigger] list@[i]).priority.current_validator()
                && list@[i].public_key is Some && crate::state::stakers::member_of(list@[i]) == k
                && list@[i].public_key->0.uncompressed@ == keys_upto(list@, n)[k];
        assert(list@[i].priority.ordinal() >= 7);
        assert(list@[i].subnet_id@ == subnet@);
    }
    if exists|i: int|
        0 <= i < n && ((#[trigger] list@[i]).priority.ordinal() == 7 || list@[i].priority.ordinal()
            == 9 || list@[i].priority.ordinal() == 11) && list@[i].public_key is Some
            && list@[i].subnet_id@ == subnet@ && list@[i].node_id@ == node@ {
        let i = choose|i: int|
            0 <= i < n && ((#[trigger] list@[i]).priority.ordinal() == 7
                || list@[i].priority.ordinal() == 9 || list@[i].priority.ordinal() == 11)
                && list@[i].public_key is Some && list@[i].subnet_id@ == subnet@
                && list@[i].node_id@ == node@;
        assert(list@[i].priority.current_validator());
    }
}

/// A subnet has the validators that are current ones of it, each with the weight
/// of all its stakers and its key.
pub proof fn sets_hold_the_validators(
    list: &Vec<Staker>,
    r: OrdMap<Id, crate::state::diff_iterators::ValidatorSet>,
    weights: OrdMap<MemberKey, u64>,
    keys: OrdMap<MemberKey, Vec<u8>>,
    subnet: Id,
    node: NodeId,
)
    requires
        call_ensures(subnet_sets, (list,), r),
        call_ensures(node_weights, (list,), weights),
        call_ensures(node_keys, (list,), keys),
    ensures
        ({
            let k = member_key(subnet@, node@);
            let there = exists|i: int|
                0 <= i < list@.len() && ((#[trigger] list@[i]).priority.ordinal() == 7
                    || list@[i].priority.ordinal() == 9 || list@[i].priority.ordinal() == 11)
                    && list@[i].subnet_id@ == subnet@ && list@[i].node_id@ == node@;
            &&& there <==> r@.contains_key(subnet@) && r@[subnet@].contains_key(node@)
            &&& there ==> r@[subnet@][node@].weight == weights@[k] && weights@.contains_key(k)
            &&& there && keys@.contains_key(k) ==> r@[subnet@][node@].public_key == Some(keys@[k])
            &&& there && !keys@.contains_key(k) ==> r@[subnet@][node@].public_key is None
        }),
{
    let k = member_key(subnet@, node@);
    if exists|i: int|
        0 <= i < list@.len() && ((#[trigger] list@[i]).priority.ordinal() == 7
            || list@[i].priority.ordinal() == 9 || list@[i].priority.ordinal() == 11)
            && list@[i].subnet_id@ == subnet@ && list@[i].node_id@ == node@ {
        let i = choose|i: int|
            0 <= i < list@.len() && ((#[trigger] list@[i]).priority.ordinal() == 7
                || list@[i].priority.ordinal() == 9 || list@[i].priority.ordinal() == 11)
                && list@[i].subnet_id@ == subnet@ && list@[i].node_id@ == node@;
        assert(list@[i].priority.current_validator());
        assert(has_validator(list@, list@.len(), subnet@, node@));
        assert(has_validators(list@, list@.len(), subnet@));
        assert(list@[i].priority.current() && crate::state::stakers::member_of(list@[i]) == k);
        assert(has_staker(list@, list@.len(), k));
    }
    if r@.contains_key(subnet@) && r@[subnet@].contains_key(node@) {
        assert(has_validator(list@, list@.len(), subnet@, node@));
        let i = choose|i: int|
            0 <= i < list@.len() && (#[trigger] list@[i]).priority.current_validator()
                && list@[i].subnet_id@ == subnet@ && list@[i].node_id@ == node@;
        assert(list@[i].priority.ordinal() >= 7);
    }
}

/// The weights, keys and sets of a state are those of its current stakers.
pub proof fn a_state_has_the_sets_of_its_stakers(
    s: &State,
    list: &Vec<Staker>,
    w: OrdMap<MemberKey, u64>,
    k: OrdMap<MemberKey, Vec<u8>>,
    a: OrdMap<Id, crate::state::diff_iterators::ValidatorSet>,
    lw: OrdMap<MemberKey, u64>,
    lk: OrdMap<MemberKey, Vec<u8>>,
    la: OrdMap<Id, crate::state::diff_iterators::ValidatorSet>,
)
    requires
        s.wf(),
        lists(s@.chain.current.set, list@),
        call_ensures(State::current_validator_weights, (s,), w),
        call_ensures(State::current_validator_public_keys, (s,), k),
        call_ensures(State::current_validator_sets, (s,), a),
        call_ensures(node_weights, (list,), lw),
        call_ensures(node_keys, (list,), lk),
        call_ensures(subnet_sets, (list,), la),
    ensures
        w@ == lw@,
        k@ == lk@,
        a@ == la@,
{
    lemma_listing(s@.chain.current.set, list@);
}

/// A change of a weight says whether it went down, and by how much.
pub proof fn a_change_of_weight_is_the_difference(before: u64, after: u64)
    ensures
        weight_change(before, after).decrease <==> after < before,
        after < before ==> weight_change(before, after).amount == before - after,
        after >= before ==> weight_change(before, after).amount == after - before,
{
}

proof fn lemma_stored_diff(d: ValidatorWeightDiff)
    ensures
        stored_diff(weight_diff_bytes(d)) == d,
{
    weight_diff_round_trip(d);
}

/// To undo one stored change of a weight: within the window of heights, and for
/// its own subnet, a weight that went up by some amount goes down by it, and one
/// that went down goes up. A node left without weight leaves the set, one that
/// was not in it joins it, and other nodes stay as they are. What would leave
/// the range fails.
pub proof fn one_change_of_weight_is_undone(
    subnet: Seq<u8>,
    height: u64,
    node: Seq<u8>,
    d: ValidatorWeightDiff,
    set: SetView,
    of: Seq<u8>,
    from: u64,
    to: u64,
    other: Seq<u8>,
)
    requires
        subnet.len() == 32,
        of.len() == 32,
        node.len() == 20,
    ensures
        ({
            let r = undo_weights(
                seq![subnet_diff_key(subnet, height, node)],
                seq![weight_diff_bytes(d)],
                1,
                set,
                of,
                from,
                to,
            );
            let w = if set.contains_key(node) {
                set[node].weight as int
            } else {
                0
            };
            let back = if d.decrease {
                w + d.amount
            } else {
                w - d.amount
            };
            let within = of == subnet && to <= height <= from;
            &&& !within ==> r == (set, true)
            &&& within ==> (r.1 <==> 0 <= back <= u64::MAX)
            &&& within && 0 < back <= u64::MAX ==> r.0.contains_key(node) && r.0[node].weight == back
                && (set.contains_key(node) ==> r.0[node].public_key == set[node].public_key) && (
            !set.contains_key(node) ==> r.0[node].public_key is None)
            &&& within && back == 0 ==> !r.0.contains_key(node)
            &&& other != node ==> r.0.contains_key(other) == set.contains_key(other) && (
            set.contains_key(other) ==> r.0[other] == set[other])
        }),
{
    let ks = seq![subnet_diff_key(subnet, height, node)];
    let vs = seq![weight_diff_bytes(d)];
    lemma_stored_diff(d);
    lemma_subnet_key_parts(ks[0], subnet, height, node);
    reveal_with_fuel(undo_weights, 2);
    assert(undo_weights(ks, vs, 0, set, of, from, to) == (set, true));
}

/// To undo one stored change of a key: within the window of heights, and for its
/// own subnet, a node of the set gets the key that is stored, or none where that
/// is empty. Nothing else changes.
pub proof fn one_change_of_key_is_undone(
    subnet: Seq<u8>,
    height: u64,
    node: Seq<u8>,
    previous: Seq<u8>,
    set: SetView,
    of: Seq<u8>,
    from: u64,
    to: u64,
    other: Seq<u8>,
)
    requires
        subnet.len() == 32,
        of.len() == 32,
        node.len() == 20,
    ensures
        ({
            let r = undo_public_keys(
                seq![subnet_diff_key(subnet, height, node)],
                seq![previous],
                1,
                set,
                of,
                from,
                to,
            );
            let within = of == subnet && to <= height <= from;
            &&& r.contains_key(other) == set.contains_key(other)
            &&& !within ==> r == set
            &&& other != node && set.contains_key(other) ==> r[other] == set[other]
            &&& set.contains_key(node) ==> r[node].weight == set[node].weight
            &&& within && set.contains_key(node) && previous.len() == 0 ==> r[node].public_key is None
            &&& within && set.contains_key(node) && previous.len() > 0 ==> r[node].public_key
                == Some(previous)
        }),
{
    let ks = seq![subnet_diff_key(subnet, height, node)];
    let vs = seq![previous];
    lemma_subnet_key_parts(ks[0], subnet, height, node);
    reveal_with_fuel(undo_public_keys, 2);
    assert(undo_public_keys(ks, vs, 0, set, of, from, to) == set);
}

/// A change of a weight that was stored is there under its subnet, height and
/// node, where it changes anything; other changes are as before.
pub proof fn a_change_is_stored(
    store: &mut WeightDiffStore,
    subnet: Id,
    node: NodeId,
    height: u64,
    d: &ValidatorWeightDiff,
    k: Seq<u8>,
)
    requires
        old(store).wf(),
        call_ensures(WeightDiffStore::put, (store, subnet, node, height, d), ()),
    ensures
        ({
            let own = subnet@ + be((u64::MAX - height) as nat, 8) + node@;
            &&& d.amount > 0 ==> final(store)@.contains_key(own) && stored_diff(final(store)@[own])
                == *d
            &&& d.amount == 0 || k != own ==> final(store)@.contains_key(k)
                == old(store)@.contains_key(k) && (old(store)@.contains_key(k)
                ==> final(store)@[k] == old(store)@[k])
        }),
{
    lemma_stored_diff(*d);
}

/// How weights and keys change between two sets of stakers is stored at the
/// height for exactly the nodes that change, and what was stored stays.
pub proof fn exactly_the_changes_are_stored(
    weights: Map<Seq<u8>, Seq<u8>>,
    keys: Map<Seq<u8>, Seq<u8>>,
    height: u64,
    wb: Map<Seq<u8>, u64>,
    wa: Map<Seq<u8>, u64>,
    kb: Map<Seq<u8>, Seq<u8>>,
    ka: Map<Seq<u8>, Seq<u8>>,
    subnet: Seq<u8>,
    node: Seq<u8>,
    at: u64,
)
    requires
        subnet.len() == 32,
        node.len() == 20,
        !weights.contains_key(subnet_diff_key(subnet, height, node)),
        !keys.contains_key(subnet_diff_key(subnet, height, node)),
    ensures
        ({
            let k = subnet_diff_key(subnet, at, node);
            let m = member_key(subnet, node);
            let w = with_weight_changes(weights, height, wb, wa);
            let p = with_key_changes(keys, height, kb, ka);
            let b = weighs(wb, subnet, node);
            let a = weighs(wa, subnet, node);
            &&& at != height ==> w.contains_key(k) == weights.contains_key(k) && (
            weights.contains_key(k) ==> w[k] == weights[k])
            &&& at != height ==> p.contains_key(k) == keys.contains_key(k) && (keys.contains_key(k)
                ==> p[k] == keys[k])
            &&& at == height ==> (w.contains_key(k) <==> a != b)
            &&& at == height && a > b ==> !stored_diff(w[k]).decrease && stored_diff(w[k]).amount
                == a - b
            &&& at == height && a < b ==> stored_diff(w[k]).decrease && stored_diff(w[k]).amount
                == b - a
            &&& at == height ==> (p.contains_key(k) <==> kb.contains_key(m) != ka.contains_key(m)
                || (kb.contains_key(m) && kb[m] != ka[m]))
            &&& at == height && p.contains_key(k) && kb.contains_key(m) ==> p[k] == kb[m]
            &&& at == height && p.contains_key(k) && !kb.contains_key(m) ==> p[k].len() == 0
        }),
{
    let k = subnet_diff_key(subnet, at, node);
    crate::state::validator_sets::lemma_change_key(k, subnet, at, node);
    let a = weighs(wa, subnet, node);
    let b = weighs(wb, subnet, node);
    lemma_stored_diff(weight_change(b as u64, a as u64));
}

/// The changes that a state stores are those between the weights and keys that
/// it is given, and nothing else of the state changes.
pub proof fn a_state_stores_the_changes(
    s: &mut State,
    height: u64,
    wb: &OrdMap<MemberKey, u64>,
    wa: &OrdMap<MemberKey, u64>,
    kb: &OrdMap<MemberKey, Vec<u8>>,
    ka: &OrdMap<MemberKey, Vec<u8>>,
    subnet: Id,
    node: NodeId,
)
    requires
        old(s).wf(),
        call_ensures(State::write_validator_diffs, (s, height, wb, wa, kb, ka), ()),
        !old(s)@.weight_diffs.contains_key(subnet_diff_key(subnet@, height, node@)),
        !old(s)@.key_diffs.contains_key(subnet_diff_key(subnet@, height, node@)),
    ensures
        ({
            let k = subnet@ + be((u64::MAX - height) as nat, 8) + node@;
            let b = weighs(wb@, subnet@, node@);
            let a = weighs(wa@, subnet@, node@);
            let stored = final(s)@.weight_diffs;
            &&& stored.contains_key(k) <==> a != b
            &&& a > b ==> !stored_diff(stored[k]).decrease && stored_diff(stored[k]).amount == a - b
            &&& a < b ==> stored_diff(stored[k]).decrease && stored_diff(stored[k]).amount == b - a
            &&& final(s)@.chain == old(s)@.chain
            &&& final(s)@.blocks == old(s)@.blocks
            &&& final(s)@.last_accepted == old(s)@.last_accepted
            &&& final(s)@.height == old(s)@.height
        }),
{
    exactly_the_changes_are_stored(
        old(s)@.weight_diffs,
        old(s)@.key_diffs,
        height,
        wb@,
        wa@,
        kb@,
        ka@,
        subnet@,
        node@,
        height,
    );
}

} // verus!
