//! Validator sets as they follow from the current stakers, and the changes
//! between two of them.
use vstd::prelude::*;

use crate::codec::{be, lemma_be_be_value, lemma_be_len, lemma_be_value_be, lemma_be_value_bound, lemma_pow256};
use crate::collections::ordmap::{lemma_increasing_unique, Dup, Key, OrdMap};
use crate::order::{bytes_copy, bytes_eq};
use crate::state::diff_iterators::{entry_of, key_bytes, key_node, key_of, records_keys, records_weights, subnet_key_height, weight_change, weight_of, AllSets, AllView, DiffValidator, DiffValidatorView, PublicKeyDiffStore, SetView, WeightDiffStore};
use crate::state::disk_staker_diff_iterator::{inverted, subnet_diff_key, weight_diff_bytes, ValidatorWeightDiff};
use crate::state::staker::{lemma_member_key, member_key, order_key, MemberKey, Staker};
use crate::state::stakers::{lists, member_of};

verus! {

/// `n`, or the greatest `u64` where it is greater.
pub open spec fn saturated(n: nat) -> u64 {
    if n > u64::MAX {
        u64::MAX
    } else {
        n as u64
    }
}

/// The weight that those of the first `n` stakers add up to that are current
/// and belong to the node `k`.
pub open spec fn weight_total(list: Seq<Staker>, n: nat, k: Seq<u8>) -> nat
    decreases n,
{
    if n == 0 {
        0
    } else {
        let s = list[n - 1];
        weight_total(list, (n - 1) as nat, k) + if s.priority.current() && member_of(s) == k {
            s.weight as nat
        } else {
            0
        }
    }
}

/// Whether one of the first `n` stakers is current and belongs to the node
/// `k`.
pub open spec fn has_staker(list: Seq<Staker>, n: nat, k: Seq<u8>) -> bool {
    exists|i: int|
        0 <= i < n && (#[trigger] list[i]).priority.current() && member_of(list[i]) == k
}

/// Whether one of the first `n` stakers is a current validator on `node` for
/// `subnet`.
pub open spec fn has_validator(list: Seq<Staker>, n: nat, subnet: Seq<u8>, node: Seq<u8>) -> bool {
    exists|i: int|
        0 <= i < n && (#[trigger] list[i]).priority.current_validator() && list[i].subnet_id@
            == subnet && list[i].node_id@ == node
}

/// Whether one of the first `n` stakers is a current validator of `subnet`.
pub open spec fn has_validators(list: Seq<Staker>, n: nat, subnet: Seq<u8>) -> bool {
    exists|i: int|
        0 <= i < n && (#[trigger] list[i]).priority.current_validator() && list[i].subnet_id@
            == subnet
}

/// The weight of every node that has a current staker: what its stakers weigh
/// together.
pub open spec fn weights_upto(list: Seq<Staker>, n: nat) -> Map<Seq<u8>, u64> {
    Map::new(
        |k: Seq<u8>| has_staker(list, n, k),
        |k: Seq<u8>| saturated(weight_total(list, n, k)),
    )
}

/// The key, in uncompressed form, of every node that has a current validator
/// with one.
pub open spec fn keys_upto(list: Seq<Staker>, n: nat) -> Map<Seq<u8>, Seq<u8>>
    decreases n,
{
    if n == 0 {
        Map::empty()
    } else {
        let s = list[n - 1];
        let m = keys_upto(list, (n - 1) as nat);
        match s.public_key {
            Some(k) => if s.priority.current_validator() {
                m.insert(member_of(s), k.uncompressed@)
            } else {
                m
            },
            None => m,
        }
    }
}

/// The validators of every subnet: the nodes that have a current validator,
/// with all their weight and their key.
pub open spec fn sets_upto(list: Seq<Staker>, n: nat) -> AllView {
    Map::new(
        |x: Seq<u8>| has_validators(list, n, x),
        |x: Seq<u8>|
            Map::new(
                |y: Seq<u8>| has_validator(list, n, x, y),
                |y: Seq<u8>|
                    DiffValidatorView {
                        weight: saturated(weight_total(list, list.len(), member_key(x, y))),
                        public_key: key_of(keys_upto(list, list.len()), member_key(x, y)),
                    },
            ),
    )
}

proof fn lemma_weights_step(list: Seq<Staker>, n: nat)
    requires
        n < list.len(),
    ensures
        ({
            let s = list[n as int];
            let m = weights_upto(list, n);
            let k = member_of(s);
            weights_upto(list, n + 1) == if s.priority.current() {
                m.insert(k, saturated((weight_of(m, k) + s.weight) as nat))
            } else {
                m
            }
        }),
{
    let s = list[n as int];
    let m = weights_upto(list, n);
    let k = member_of(s);
    let r = weights_upto(list, n + 1);
    assert forall|x: Seq<u8>| has_staker(list, n + 1, x) == (has_staker(list, n, x) || (
    s.priority.current() && k == x)) by {
        if has_staker(list, n + 1, x) {
            let i = choose|i: int|
                0 <= i < n + 1 && (#[trigger] list[i]).priority.current() && member_of(list[i])
                    == x;
            if i < n {
                assert(has_staker(list, n, x));
            }
        }
        if has_staker(list, n, x) {
            let i = choose|i: int|
                0 <= i < n && (#[trigger] list[i]).priority.current() && member_of(list[i]) == x;
            assert(list[i].priority.current());
        }
    }
    lemma_no_staker_no_weight(list, n, k);
    if s.priority.current() {
        assert(r =~= m.insert(k, saturated((weight_of(m, k) + s.weight) as nat)));
    } else {
        assert(r =~= m);
    }
}

proof fn lemma_no_staker_no_weight(list: Seq<Staker>, n: nat, k: Seq<u8>)
    requires
        n <= list.len(),
    ensures
        !has_staker(list, n, k) ==> weight_total(list, n, k) == 0,
    decreases n,
{
    if n > 0 && !has_staker(list, n, k) {
        if has_staker(list, (n - 1) as nat, k) {
            let i = choose|i: int|
                0 <= i < n - 1 && (#[trigger] list[i]).priority.current() && member_of(list[i])
                    == k;
            assert(list[i].priority.current());
        }
        lemma_no_staker_no_weight(list, (n - 1) as nat, k);
        assert(!(list[n - 1].priority.current() && member_of(list[n - 1]) == k));
    }
}

/// The stakers of `set`, in order.
pub open spec fn listing(set: Map<Seq<u8>, Staker>) -> Seq<Staker> {
    choose|list: Seq<Staker>| lists(set, list)
}

/// There is one way to list a set of stakers.
pub proof fn lemma_listing(set: Map<Seq<u8>, Staker>, list: Seq<Staker>)
    requires
        lists(set, list),
    ensures
        list == listing(set),
{
    let other = listing(set);
    assert(lists(set, other));
    let a = list.map_values(|s: Staker| order_key(s));
    let b = other.map_values(|s: Staker| order_key(s));
    assert forall|i: int| 0 <= i < a.len() implies b.contains(#[trigger] a[i]) by {
        assert(set.contains_key(order_key(list[i])));
        let j = choose|j: int|
            0 <= j < other.len() && order_key(#[trigger] other[j]) == order_key(list[i]);
        assert(b[j] == a[i]);
    }
    assert forall|i: int| 0 <= i < b.len() implies a.contains(#[trigger] b[i]) by {
        assert(set.contains_key(order_key(other[i])));
        let j = choose|j: int|
            0 <= j < list.len() && order_key(#[trigger] list[j]) == order_key(other[i]);
        assert(a[j] == b[i]);
    }
    lemma_increasing_unique(a, b);
    assert forall|i: int| 0 <= i < list.len() implies list[i] == other[i] by {
        assert(a[i] == b[i]);
        assert(set[order_key(list[i])] == list[i]);
        assert(set[order_key(other[i])] == other[i]);
    }
    assert(list =~= other);
}

/// The weight of every node that has a staker in `set` that is current.
pub open spec fn current_weights(set: Map<Seq<u8>, Staker>) -> Map<Seq<u8>, u64> {
    weights_upto(listing(set), listing(set).len())
}

/// The key of every node that has a current validator with one in `set`.
pub open spec fn current_keys(set: Map<Seq<u8>, Staker>) -> Map<Seq<u8>, Seq<u8>> {
    keys_upto(listing(set), listing(set).len())
}

/// The current validators in `set`, by subnet, with the weight and the key of
/// each.
pub open spec fn current_sets(set: Map<Seq<u8>, Staker>) -> AllView {
    sets_upto(listing(set), listing(set).len())
}

/// The weight of every node that has a current staker.
pub fn node_weights(list: &Vec<Staker>) -> (r: OrdMap<MemberKey, u64>)
    ensures
        r@ == weights_upto(list@, list@.len()),
{
    let n: usize = list.len();
    let mut out: OrdMap<MemberKey, u64> = OrdMap::new();
    let mut i: usize = 0;
    assert(out@ =~= weights_upto(list@, 0));
    while i < n
        invariant
            i <= n,
            n == list@.len(),
            out@ == weights_upto(list@, i as nat),
        decreases n - i,
    {
        let s = list[i];
        proof {
            lemma_weights_step(list@, i as nat);
        }
        if s.priority.is_current() {
            let k = MemberKey { subnet_id: s.subnet_id, node_id: s.node_id };
            let w: u64 = match out.get(&k) {
                Some(w) => *w,
                None => 0,
            };
            let sum: u64 = w.saturating_add(s.weight);
            out.insert(k, sum);
        }
        i += 1;
    }
    out
}

/// The key of every node that has a current validator with one.
pub fn node_keys(list: &Vec<Staker>) -> (r: OrdMap<MemberKey, Vec<u8>>)
    ensures
        r@ == keys_upto(list@, list@.len()),
{
    let n: usize = list.len();
    let mut out: OrdMap<MemberKey, Vec<u8>> = OrdMap::new();
    let mut i: usize = 0;
    while i < n
        invariant
            i <= n,
            n == list@.len(),
            out@ == keys_upto(list@, i as nat),
        decreases n - i,
    {
        let s = list[i];
        if s.priority.is_current_validator() {
            if let Some(pk) = &s.public_key {
                let k = MemberKey { subnet_id: s.subnet_id, node_id: s.node_id };
                let b = bytes_copy(pk.uncompressed.as_slice());
                out.insert(k, b);
            }
        }
        i += 1;
    }
    out
}

proof fn lemma_sets_step(list: Seq<Staker>, n: nat)
    requires
        n < list.len(),
    ensures
        ({
            let s = list[n as int];
            let m = sets_upto(list, n);
            let x = s.subnet_id@;
            let y = s.node_id@;
            let v = DiffValidatorView {
                weight: saturated(weight_total(list, list.len(), member_key(x, y))),
                public_key: key_of(keys_upto(list, list.len()), member_key(x, y)),
            };
            let set = if m.contains_key(x) {
                m[x]
            } else {
                Map::empty()
            };
            sets_upto(list, n + 1) == if s.priority.current_validator() {
                m.insert(x, set.insert(y, v))
            } else {
                m
            }
        }),
{
    let s = list[n as int];
    let m = sets_upto(list, n);
    let x = s.subnet_id@;
    let y = s.node_id@;
    let v = DiffValidatorView {
        weight: saturated(weight_total(list, list.len(), member_key(x, y))),
        public_key: key_of(keys_upto(list, list.len()), member_key(x, y)),
    };
    let set = if m.contains_key(x) {
        m[x]
    } else {
        Map::empty()
    };
    let r = sets_upto(list, n + 1);
    let cv = s.priority.current_validator();
    assert forall|a: Seq<u8>| has_validators(list, n + 1, a) == (has_validators(list, n, a) || (cv
        && x == a)) by {
        if has_validators(list, n + 1, a) {
            let i = choose|i: int|
                0 <= i < n + 1 && (#[trigger] list[i]).priority.current_validator()
                    && list[i].subnet_id@ == a;
            if i < n {
                assert(has_validators(list, n, a));
            }
        }
        if has_validators(list, n, a) {
            let i = choose|i: int|
                0 <= i < n && (#[trigger] list[i]).priority.current_validator()
                    && list[i].subnet_id@ == a;
            assert(list[i].priority.current_validator());
        }
    }
    assert forall|a: Seq<u8>, b: Seq<u8>| has_validator(list, n + 1, a, b) == (has_validator(
        list,
        n,
        a,
        b,
    ) || (cv && x == a && y == b)) by {
        if has_validator(list, n + 1, a, b) {
            let i = choose|i: int|
                0 <= i < n + 1 && (#[trigger] list[i]).priority.current_validator()
                    && list[i].subnet_id@ == a && list[i].node_id@ == b;
            if i < n {
                assert(has_validator(list, n, a, b));
            }
        }
        if has_validator(list, n, a, b) {
            let i = choose|i: int|
                0 <= i < n && (#[trigger] list[i]).priority.current_validator()
                    && list[i].subnet_id@ == a && list[i].node_id@ == b;
            assert(list[i].priority.current_validator());
        }
    }
    assert forall|a: Seq<u8>| !has_validators(list, n, a) implies forall|b: Seq<u8>|
        !has_validator(list, n, a, b) by {
        assert forall|b: Seq<u8>| !has_validator(list, n, a, b) by {
            if has_validator(list, n, a, b) {
                let i = choose|i: int|
                    0 <= i < n && (#[trigger] list[i]).priority.current_validator()
                        && list[i].subnet_id@ == a && list[i].node_id@ == b;
                assert(has_validators(list, n, a));
            }
        }
    }
    if cv {
        assert(r[x] =~= set.insert(y, v));
        assert forall|a: Seq<u8>| a != x && #[trigger] m.contains_key(a) implies r[a] == m[a] by {
            assert(r[a] =~= m[a]);
        }
        assert(r =~= m.insert(x, set.insert(y, v)));
    } else {
        assert forall|a: Seq<u8>| #[trigger] m.contains_key(a) implies r[a] == m[a] by {
            assert(r[a] =~= m[a]);
        }
        assert(r =~= m);
    }
}

/// The validators of every subnet.
pub fn subnet_sets(list: &Vec<Staker>) -> (r: AllSets)
    ensures
        r@ == sets_upto(list@, list@.len()),
{
    let weights = node_weights(list);
    let keys = node_keys(list);
    let n: usize = list.len();
    let mut out: AllSets = OrdMap::new();
    let mut i: usize = 0;
    assert(out@ =~= sets_upto(list@, 0));
    while i < n
        invariant
            i <= n,
            n == list@.len(),
            weights@ == weights_upto(list@, n as nat),
            keys@ == keys_upto(list@, n as nat),
            out@ == sets_upto(list@, i as nat),
        decreases n - i,
    {
        let s = list[i];
        proof {
            lemma_sets_step(list@, i as nat);
        }
        if s.priority.is_current_validator() {
            let k = MemberKey { subnet_id: s.subnet_id, node_id: s.node_id };
            assert(has_staker(list@, n as nat, k.rank())) by {
                assert(list@[i as int].priority.current());
            }
            let weight: u64 = match weights.get(&k) {
                Some(w) => *w,
                None => s.weight,
            };
            let public_key = match keys.get(&k) {
                Some(b) => Some(bytes_copy(b.as_slice())),
                None => None,
            };
            let ghost before = out@;
            let mut set = match out.take(&s.subnet_id) {
                Some(set) => set,
                None => OrdMap::new(),
            };
            let v = DiffValidator { weight, public_key };
            set.insert(s.node_id, v);
            let ghost sv = set@;
            out.insert(s.subnet_id, set);
            assert(out@ =~= before.insert(s.subnet_id@, sv));
        }
        i += 1;
    }
    out
}

/// The member key of the node that a stored change is about.
pub open spec fn change_member(k: Seq<u8>) -> Seq<u8> {
    k.take(32) + key_node(k)
}

/// Whether `k` is the key of a change at `height`.
pub open spec fn change_at(k: Seq<u8>, height: u64) -> bool {
    k.len() == 60 && subnet_key_height(k) == height
}

/// Whether the weight of the node that `k` is about changes.
pub open spec fn weight_changes(
    k: Seq<u8>,
    height: u64,
    before: Map<Seq<u8>, u64>,
    after: Map<Seq<u8>, u64>,
) -> bool {
    change_at(k, height) && weight_of(before, change_member(k)) != weight_of(
        after,
        change_member(k),
    )
}

/// The stored changes of weights, with those from `before` to `after` at
/// `height`.
pub open spec fn with_weight_changes(
    stored: Map<Seq<u8>, Seq<u8>>,
    height: u64,
    before: Map<Seq<u8>, u64>,
    after: Map<Seq<u8>, u64>,
) -> Map<Seq<u8>, Seq<u8>> {
    Map::new(
        |k: Seq<u8>| stored.contains_key(k) || weight_changes(k, height, before, after),
        |k: Seq<u8>|
            if weight_changes(k, height, before, after) {
                weight_diff_bytes(
                    weight_change(
                        weight_of(before, change_member(k)),
                        weight_of(after, change_member(k)),
                    ),
                )
            } else {
                stored[k]
            },
    )
}

/// Whether the key of the node that `k` is about changes.
pub open spec fn key_changes(
    k: Seq<u8>,
    height: u64,
    before: Map<Seq<u8>, Seq<u8>>,
    after: Map<Seq<u8>, Seq<u8>>,
) -> bool {
    change_at(k, height) && key_of(before, change_member(k)) != key_of(after, change_member(k))
}

/// The stored changes of keys, with those from `before` to `after` at
/// `height`.
pub open spec fn with_key_changes(
    stored: Map<Seq<u8>, Seq<u8>>,
    height: u64,
    before: Map<Seq<u8>, Seq<u8>>,
    after: Map<Seq<u8>, Seq<u8>>,
) -> Map<Seq<u8>, Seq<u8>> {
    Map::new(
        |k: Seq<u8>| stored.contains_key(k) || key_changes(k, height, before, after),
        |k: Seq<u8>|
            if key_changes(k, height, before, after) {
                key_bytes(key_of(before, change_member(k)))
            } else {
                stored[k]
            },
    )
}

spec fn seen(tk: Seq<Seq<u8>>, n: int, m: Seq<u8>) -> bool {
    exists|j: int| 0 <= j < n && #[trigger] tk[j] == m
}

spec fn part_of_weight_changes(
    tk: Seq<Seq<u8>>,
    n: int,
    stored: Map<Seq<u8>, Seq<u8>>,
    height: u64,
    before: Map<Seq<u8>, u64>,
    after: Map<Seq<u8>, u64>,
) -> Map<Seq<u8>, Seq<u8>> {
    Map::new(
        |k: Seq<u8>|
            stored.contains_key(k) || (weight_changes(k, height, before, after) && seen(
                tk,
                n,
                change_member(k),
            )),
        |k: Seq<u8>|
            if weight_changes(k, height, before, after) && seen(tk, n, change_member(k)) {
                weight_diff_bytes(
                    weight_change(
                        weight_of(before, change_member(k)),
                        weight_of(after, change_member(k)),
                    ),
                )
            } else {
                stored[k]
            },
    )
}

spec fn part_of_key_changes(
    tk: Seq<Seq<u8>>,
    n: int,
    stored: Map<Seq<u8>, Seq<u8>>,
    height: u64,
    before: Map<Seq<u8>, Seq<u8>>,
    after: Map<Seq<u8>, Seq<u8>>,
) -> Map<Seq<u8>, Seq<u8>> {
    Map::new(
        |k: Seq<u8>|
            stored.contains_key(k) || (key_changes(k, height, before, after) && seen(
                tk,
                n,
                change_member(k),
            )),
        |k: Seq<u8>|
            if key_changes(k, height, before, after) && seen(tk, n, change_member(k)) {
                key_bytes(key_of(before, change_member(k)))
            } else {
                stored[k]
            },
    )
}

pub(crate) proof fn lemma_change_key(k: Seq<u8>, subnet: Seq<u8>, height: u64, node: Seq<u8>)
    requires
        subnet.len() == 32,
        node.len() == 20,
    ensures
        change_at(subnet_diff_key(subnet, height, node), height),
        change_member(subnet_diff_key(subnet, height, node)) == member_key(subnet, node),
        change_at(k, height) && change_member(k) == member_key(subnet, node) ==> k
            == subnet_diff_key(subnet, height, node),
{
    let q = subnet_diff_key(subnet, height, node);
    lemma_be_len(inverted(height) as nat, 8);
    lemma_pow256();
    lemma_be_value_be(inverted(height) as nat, 8);
    assert(q.take(32) =~= subnet);
    assert(q.subrange(32, 40) =~= be(inverted(height) as nat, 8));
    assert(key_node(q) =~= node);
    if change_at(k, height) && change_member(k) == member_key(subnet, node) {
        lemma_member_key(k.take(32), key_node(k), subnet, node);
        lemma_be_be_value(k.subrange(32, 40));
        lemma_be_value_bound(k.subrange(32, 40));
        assert(k =~= q);
    }
}

fn add_keys<V: Dup>(touched: &mut OrdMap<MemberKey, ()>, from: &OrdMap<MemberKey, V>)
    ensures
        forall|k: Seq<u8>| #[trigger]
            final(touched)@.contains_key(k) <==> old(touched)@.contains_key(k)
                || from@.contains_key(k),
{
    let n: usize = from.len();
    let ghost ks = from.keys();
    let mut i: usize = 0;
    while i < n
        invariant
            i <= n,
            n == ks.len(),
            ks == from.keys(),
            forall|k: Seq<u8>| #[trigger]
                touched@.contains_key(k) <==> old(touched)@.contains_key(k) || (exists|j: int|
                    0 <= j < i && #[trigger] ks[j] == k),
        decreases n - i,
    {
        let k = from.key_at(i).copied();
        let ghost before = touched@;
        touched.insert(k, ());
        assert forall|x: Seq<u8>| #[trigger]
            touched@.contains_key(x) <==> old(touched)@.contains_key(x) || (exists|j: int|
            0 <= j < i + 1 && #[trigger] ks[j] == x) by {
            if before.contains_key(x) && !old(touched)@.contains_key(x) {
                let j = choose|j: int| 0 <= j < i && #[trigger] ks[j] == x;
                assert(ks[j] == x);
            }
            assert(ks[i as int] == k.rank());
            if exists|j: int| 0 <= j < i + 1 && #[trigger] ks[j] == x {
                let j = choose|j: int| 0 <= j < i + 1 && #[trigger] ks[j] == x;
                if j < i {
                    assert(before.contains_key(x));
                }
            }
        }
        i += 1;
    }
    assert forall|k: Seq<u8>| #[trigger]
        touched@.contains_key(k) <==> old(touched)@.contains_key(k) || from@.contains_key(k) by {
        if from@.contains_key(k) {
            assert(ks[ks.index_of(k)] == k);
        }
    }
}

/// Stores, at `height`, the changes of weights and keys from before to after.
pub fn store_changes(
    weight_store: &mut WeightDiffStore,
    key_store: &mut PublicKeyDiffStore,
    height: u64,
    weights_before: &OrdMap<MemberKey, u64>,
    weights_after: &OrdMap<MemberKey, u64>,
    keys_before: &OrdMap<MemberKey, Vec<u8>>,
    keys_after: &OrdMap<MemberKey, Vec<u8>>,
)
    requires
        old(weight_store).wf(),
        old(key_store).wf(),
    ensures
        final(weight_store).wf(),
        final(key_store).wf(),
        final(weight_store)@ == with_weight_changes(
            old(weight_store)@,
            height,
            weights_before@,
            weights_after@,
        ),
        final(key_store)@ == with_key_changes(
            old(key_store)@,
            height,
            keys_before@,
            keys_after@,
        ),
{
    let mut touched: OrdMap<MemberKey, ()> = OrdMap::new();
    add_keys(&mut touched, weights_before);
    add_keys(&mut touched, weights_after);
    add_keys(&mut touched, keys_before);
    add_keys(&mut touched, keys_after);
    let n: usize = touched.len();
    let ghost tk = touched.keys();
    let ghost wb = weights_before@;
    let ghost wa = weights_after@;
    let ghost kb = keys_before@;
    let ghost ka = keys_after@;
    let ghost ws = weight_store@;
    let ghost ks = key_store@;
    let mut i: usize = 0;
    assert(weight_store@ =~= part_of_weight_changes(tk, 0, ws, height, wb, wa));
    assert(key_store@ =~= part_of_key_changes(tk, 0, ks, height, kb, ka));
    while i < n
        invariant
            i <= n,
            n == tk.len(),
            tk == touched.keys(),
            weight_store.wf(),
            key_store.wf(),
            wb == weights_before@,
            wa == weights_after@,
            kb == keys_before@,
            ka == keys_after@,
            weight_store@ == part_of_weight_changes(tk, i as int, ws, height, wb, wa),
            key_store@ == part_of_key_changes(tk, i as int, ks, height, kb, ka),
        decreases n - i,
    {
        let k = *touched.key_at(i);
        let ghost m = k.rank();
        let ghost key = subnet_diff_key(k.subnet_id@, height, k.node_id@);
        proof {
            assert(tk[i as int] == m);
            assert forall|x: Seq<u8>| #[trigger]
                seen(tk, i + 1, x) == (seen(tk, i as int, x) || x == m) by {
                if seen(tk, i + 1, x) {
                    let j = choose|j: int| 0 <= j < i + 1 && #[trigger] tk[j] == x;
                    if j < i {
                        assert(seen(tk, i as int, x));
                    }
                }
                if seen(tk, i as int, x) {
                    let j = choose|j: int| 0 <= j < i && #[trigger] tk[j] == x;
                    assert(tk[j] == x);
                }
            }
            lemma_change_key(key, k.subnet_id@, height, k.node_id@);
            assert forall|x: Seq<u8>| change_at(x, height) && change_member(x) == m implies x
                == key by {
                lemma_change_key(x, k.subnet_id@, height, k.node_id@);
            }
        }
        let before: u64 = match weights_before.get(&k) {
            Some(w) => *w,
            None => 0,
        };
        let after: u64 = match weights_after.get(&k) {
            Some(w) => *w,
            None => 0,
        };
        let ghost w0 = weight_store@;
        if before != after {
            let diff = if after > before {
                ValidatorWeightDiff { decrease: false, amount: after - before }
            } else {
                ValidatorWeightDiff { decrease: true, amount: before - after }
            };
            weight_store.put(k.subnet_id, k.node_id, height, &diff);
            assert(diff == weight_change(before, after));
        }
        assert(weight_store@ =~= part_of_weight_changes(tk, i + 1, ws, height, wb, wa));
        let previous = keys_before.get(&k);
        let new = keys_after.get(&k);
        let changed = match (previous, new) {
            (Some(a), Some(b)) => !bytes_eq(a.as_slice(), b.as_slice()),
            (None, None) => false,
            _ => true,
        };
        assert(changed == (key_of(kb, m) != key_of(ka, m)));
        if changed {
            let bytes = match previous {
                Some(a) => bytes_copy(a.as_slice()),
                None => {
                    let none: Vec<u8> = Vec::new();
                    assert(none@ =~= Seq::empty());
                    none
                },
            };
            key_store.put(k.subnet_id, k.node_id, height, bytes.as_slice());
            assert(bytes@ == key_bytes(key_of(kb, m)));
        }
        assert(key_store@ =~= part_of_key_changes(tk, i + 1, ks, height, kb, ka));
        i += 1;
    }
    proof {
        assert forall|m: Seq<u8>| wb.contains_key(m) || wa.contains_key(m) || kb.contains_key(m)
            || ka.contains_key(m) implies #[trigger] seen(tk, n as int, m) by {
            assert(touched@.contains_key(m));
            assert(tk[tk.index_of(m)] == m);
        }
        assert(weight_store@ =~= with_weight_changes(ws, height, wb, wa));
        assert(key_store@ =~= with_key_changes(ks, height, kb, ka));
    }
}

/// The weights that `weights` holds of the nodes of `subnet`.
pub open spec fn weights_in(weights: Map<Seq<u8>, u64>, subnet: Seq<u8>) -> Map<Seq<u8>, u64> {
    Map::new(
        |n: Seq<u8>| n.len() == 20 && weights.contains_key(member_key(subnet, n)),
        |n: Seq<u8>| weights[member_key(subnet, n)],
    )
}

/// The keys that `keys` holds of the nodes of `subnet`.
pub open spec fn keys_in(keys: Map<Seq<u8>, Seq<u8>>, subnet: Seq<u8>) -> Map<Seq<u8>, Seq<u8>> {
    Map::new(
        |n: Seq<u8>| n.len() == 20 && keys.contains_key(member_key(subnet, n)),
        |n: Seq<u8>| keys[member_key(subnet, n)],
    )
}

/// The changes that are stored at a height lead from the weights before it to
/// the set after it, so that undoing them leads back.
pub proof fn stored_weight_changes_lead_back(
    stored: Map<Seq<u8>, Seq<u8>>,
    height: u64,
    before: Map<Seq<u8>, u64>,
    after: Map<Seq<u8>, u64>,
    subnet: Seq<u8>,
    set: SetView,
)
    requires
        subnet.len() == 32,
        forall|k: Seq<u8>| #[trigger] stored.contains_key(k) ==> !change_at(k, height),
        forall|n: Seq<u8>|
            n.len() == 20 ==> #[trigger] entry_of(set, n).weight == weight_of(
                after,
                member_key(subnet, n),
            ),
    ensures
        records_weights(
            with_weight_changes(stored, height, before, after),
            subnet,
            height,
            weights_in(before, subnet),
            set,
        ),
{
    let r = with_weight_changes(stored, height, before, after);
    let b = weights_in(before, subnet);
    assert forall|n: Seq<u8>|
        #![trigger subnet_diff_key(subnet, height, n)]
        n.len() == 20 implies {
        let k = subnet_diff_key(subnet, height, n);
        let x = weight_of(b, n);
        let a = entry_of(set, n).weight;
        &&& r.contains_key(k) <==> a != x
        &&& a != x ==> r[k] == weight_diff_bytes(weight_change(x, a))
    } by {
        let k = subnet_diff_key(subnet, height, n);
        lemma_change_key(k, subnet, height, n);
        assert(entry_of(set, n).weight == weight_of(after, member_key(subnet, n)));
    }
}

/// The keys that are stored at a height are those from before it of exactly
/// the nodes whose key changed, so that putting them back leads back.
pub proof fn stored_key_changes_lead_back(
    stored: Map<Seq<u8>, Seq<u8>>,
    height: u64,
    before: Map<Seq<u8>, Seq<u8>>,
    after: Map<Seq<u8>, Seq<u8>>,
    subnet: Seq<u8>,
    set: SetView,
)
    requires
        subnet.len() == 32,
        forall|k: Seq<u8>| #[trigger] stored.contains_key(k) ==> !change_at(k, height),
        forall|n: Seq<u8>| #[trigger]
            set.contains_key(n) ==> n.len() == 20 && set[n].public_key == key_of(
                after,
                member_key(subnet, n),
            ),
    ensures
        records_keys(
            with_key_changes(stored, height, before, after),
            subnet,
            height,
            keys_in(before, subnet),
            set,
        ),
{
    let r = with_key_changes(stored, height, before, after);
    let b = keys_in(before, subnet);
    assert forall|n: Seq<u8>|
        #![trigger subnet_diff_key(subnet, height, n)]
        set.contains_key(n) implies {
        let k = subnet_diff_key(subnet, height, n);
        &&& r.contains_key(k) <==> key_of(b, n) != set[n].public_key
        &&& r.contains_key(k) ==> r[k] == key_bytes(key_of(b, n))
    } by {
        let k = subnet_diff_key(subnet, height, n);
        lemma_change_key(k, subnet, height, n);
    }
}

} // verus!
