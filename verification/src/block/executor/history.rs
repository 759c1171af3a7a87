//! The validators at an earlier height, found from what accepted blocks left
//! behind.
use vstd::prelude::*;

use crate::block::block::Block;
use crate::block::executor::acceptor::accepted;
use crate::block::executor::manager::ManagerView;
use crate::order::lemma_lex_antisymmetric;
use crate::state::diff_iterators::{entry_of, in_subnet_window, key_bytes, key_node, key_of, lemma_subnet_key_parts, lemma_subnet_keys_in_order, lists, records_weights, set_of, subnet_key_height, undo_public_key, undo_public_keys, undo_weights, undoing_in_two_steps, undoing_restores_weights, weight_of, with_weights, DiffValidatorView, SetView};
use crate::state::disk_staker_diff_iterator::subnet_diff_key;
use crate::state::staker::{lemma_member_key, member_key, Staker};
use crate::state::state::StateView;
use crate::state::validator_sets::{change_at, change_member, current_keys, current_sets, current_weights, has_staker, has_validator, key_changes, keys_in, keys_upto, lemma_change_key, listing, stored_weight_changes_lead_back, weights_in, with_key_changes, with_weight_changes};

verus! {

/// The weights of the nodes of `subnet` in the state.
pub open spec fn weights_at(s: StateView, subnet: Seq<u8>) -> Map<Seq<u8>, u64> {
    weights_in(current_weights(s.chain.current.set), subnet)
}

/// The keys of the nodes of `subnet` in the state.
pub open spec fn keys_at(s: StateView, subnet: Seq<u8>) -> Map<Seq<u8>, Seq<u8>> {
    keys_in(current_keys(s.chain.current.set), subnet)
}

/// The validators of `subnet` in the state, with their weights and keys.
pub open spec fn validators_at(s: StateView, subnet: Seq<u8>) -> SetView {
    Map::new(
        |n: Seq<u8>| weights_at(s, subnet).contains_key(n),
        |n: Seq<u8>|
            DiffValidatorView {
                weight: weights_at(s, subnet)[n],
                public_key: key_of(keys_at(s, subnet), n),
            },
    )
}

/// Whether a block that was accepted on `a` leads to `b`: how the weights and
/// the keys changed is stored at the height of `b`.
pub open spec fn follows(a: StateView, b: StateView) -> bool {
    &&& a.height < b.height
    &&& b.weight_diffs == with_weight_changes(
        a.weight_diffs,
        b.height,
        current_weights(a.chain.current.set),
        current_weights(b.chain.current.set),
    )
    &&& b.key_diffs == with_key_changes(
        a.key_diffs,
        b.height,
        current_keys(a.chain.current.set),
        current_keys(b.chain.current.set),
    )
}

/// Whether each state follows the one before it.
pub open spec fn in_turn(states: Seq<StateView>) -> bool {
    forall|i: int, j: int|
        0 <= i < states.len() && j == i + 1 && j < states.len() ==> follows(
            #[trigger] states[i],
            #[trigger] states[j],
        )
}

/// Whether no stored change has a greater height than the state.
pub open spec fn nothing_ahead(s: StateView) -> bool {
    &&& forall|k: Seq<u8>| #[trigger]
        s.weight_diffs.contains_key(k) ==> k.len() == 60 && subnet_key_height(k) <= s.height
    &&& forall|k: Seq<u8>| #[trigger]
        s.key_diffs.contains_key(k) ==> k.len() == 60 && subnet_key_height(k) <= s.height
}

/// Whether every node of `subnet` has weight, and no key is empty.
pub open spec fn weighty(s: StateView, subnet: Seq<u8>) -> bool {
    &&& forall|n: Seq<u8>| #[trigger]
        weights_at(s, subnet).contains_key(n) ==> weights_at(s, subnet)[n] > 0
    &&& forall|n: Seq<u8>| #[trigger]
        keys_at(s, subnet).contains_key(n) ==> keys_at(s, subnet)[n].len() > 0
}

/// Accepting a block that is no proposal leads from one state to the next.
pub proof fn accepted_states_follow(m: ManagerView, block: &Block, f: ManagerView)
    requires
        accepted(m, block, f),
        !block@.proposal(),
        m.state.height < block@.common().height,
    ensures
        follows(m.state, f.state),
        f.state.height == block@.common().height,
{
    assert(f.state.ledger().weight_diffs == f.state.weight_diffs);
    assert(f.state.ledger().key_diffs == f.state.key_diffs);
    assert(f.state.ledger().height == f.state.height);
}

/// No stored change gets ahead of the state.
pub proof fn nothing_gets_ahead(a: StateView, b: StateView)
    requires
        follows(a, b),
        nothing_ahead(a),
    ensures
        nothing_ahead(b),
{
}

proof fn lemma_heights_rise(states: Seq<StateView>, i: int, j: int)
    requires
        in_turn(states),
        0 <= i <= j < states.len(),
    ensures
        i < j ==> states[i].height < states[j].height,
    decreases j - i,
{
    if i < j {
        lemma_heights_rise(states, i, j - 1);
        assert(follows(states[j - 1], states[j]));
    }
}

/// What was stored when the state was current is what is stored of its height
/// and the heights before it ever after.
proof fn lemma_older_changes_stay(states: Seq<StateView>, i: int, j: int, k: Seq<u8>)
    requires
        in_turn(states),
        0 <= i <= j < states.len(),
        subnet_key_height(k) <= states[i].height,
    ensures
        states[j].weight_diffs.contains_key(k) == states[i].weight_diffs.contains_key(k),
        states[j].weight_diffs.contains_key(k) ==> states[j].weight_diffs[k]
            == states[i].weight_diffs[k],
        states[j].key_diffs.contains_key(k) == states[i].key_diffs.contains_key(k),
        states[j].key_diffs.contains_key(k) ==> states[j].key_diffs[k] == states[i].key_diffs[k],
    decreases j - i,
{
    if i < j {
        lemma_older_changes_stay(states, i, j - 1, k);
        lemma_heights_rise(states, i, j);
        assert(follows(states[j - 1], states[j]));
    }
}

/// Every change that is stored above the first height is of one of the states.
proof fn lemma_changes_have_a_state(states: Seq<StateView>, j: int, k: Seq<u8>) -> (i: int)
    requires
        in_turn(states),
        0 <= j < states.len(),
        nothing_ahead(states[0]),
        states[j].weight_diffs.contains_key(k) || states[j].key_diffs.contains_key(k),
        subnet_key_height(k) > states[0].height,
    ensures
        0 < i <= j,
        subnet_key_height(k) == states[i].height,
    decreases j,
{
    if j > 0 {
        assert(follows(states[j - 1], states[j]));
        if states[j - 1].weight_diffs.contains_key(k) || states[j - 1].key_diffs.contains_key(k) {
            lemma_changes_have_a_state(states, j - 1, k)
        } else {
            j
        }
    } else {
        0
    }
}

/// Undoing depends on which of the changes lie in the window.
proof fn lemma_same_window(
    ks: Seq<Seq<u8>>,
    vs: Seq<Seq<u8>>,
    n: nat,
    set: SetView,
    subnet: Seq<u8>,
    from: u64,
    to: u64,
    upto: u64,
)
    requires
        n <= ks.len(),
        forall|j: int|
            0 <= j < ks.len() ==> in_subnet_window(#[trigger] ks[j], subnet, from, to)
                == in_subnet_window(ks[j], subnet, from, upto),
    ensures
        undo_weights(ks, vs, n, set, subnet, from, to) == undo_weights(
            ks,
            vs,
            n,
            set,
            subnet,
            from,
            upto,
        ),
    decreases n,
{
    if n > 0 {
        lemma_same_window(ks, vs, (n - 1) as nat, set, subnet, from, to, upto);
    }
}

/// The set of the last state with the weights of the state `i`: what undoing the
/// weights one state at a time comes to.
spec fn taken_back(states: Seq<StateView>, subnet: Seq<u8>, i: int) -> SetView
    decreases states.len() - i,
{
    if i >= states.len() - 1 {
        validators_at(states.last(), subnet)
    } else {
        with_weights(weights_at(states[i], subnet), taken_back(states, subnet, i + 1))
    }
}

proof fn lemma_keys_of_stakers(list: Seq<Staker>, n: nat, k: Seq<u8>)
    requires
        n <= list.len(),
        keys_upto(list, n).contains_key(k),
    ensures
        has_staker(list, n, k),
    decreases n,
{
    if n > 0 {
        let s = list[n - 1];
        if keys_upto(list, (n - 1) as nat).contains_key(k) {
            lemma_keys_of_stakers(list, (n - 1) as nat, k);
            let i = choose|i: int|
                0 <= i < n - 1 && (#[trigger] list[i]).priority.current()
                    && crate::state::stakers::member_of(list[i]) == k;
            assert(list[i].priority.current());
        } else {
            assert(list[n - 1].priority.current());
        }
    }
}

/// A node with a key has weight.
proof fn lemma_keys_have_weights(s: StateView, subnet: Seq<u8>, n: Seq<u8>)
    ensures
        keys_at(s, subnet).contains_key(n) ==> weights_at(s, subnet).contains_key(n),
{
    if keys_at(s, subnet).contains_key(n) {
        let list = listing(s.chain.current.set);
        lemma_keys_of_stakers(list, list.len(), member_key(subnet, n));
    }
}

/// What is known of the sets on the way back: the weights are those of the
/// state, and a key is that of the last state, or was lost with a node that
/// left.
proof fn lemma_taken_back(states: Seq<StateView>, subnet: Seq<u8>, i: int, x: Seq<u8>)
    requires
        0 <= i < states.len(),
    ensures
        ({
            let t = taken_back(states, subnet, i);
            let w = weights_at(states[i], subnet);
            &&& t.contains_key(x) == w.contains_key(x)
            &&& t.contains_key(x) ==> t[x].weight == w[x] && (t[x].public_key == key_of(
                keys_at(states.last(), subnet),
                x,
            ) || t[x].public_key is None && exists|j: int|
                i <= j < states.len() && !weights_at(#[trigger] states[j], subnet).contains_key(x))
        }),
    decreases states.len() - i,
{
    if i < states.len() - 1 {
        lemma_taken_back(states, subnet, i + 1, x);
        let t = taken_back(states, subnet, i + 1);
        if t.contains_key(x) {
            if t[x].public_key != key_of(keys_at(states.last(), subnet), x) {
                let j = choose|j: int|
                    i + 1 <= j < states.len() && !weights_at(
                        #[trigger] states[j],
                        subnet,
                    ).contains_key(x);
                assert(i <= j < states.len() && !weights_at(states[j], subnet).contains_key(x));
            }
        } else {
            assert(!weights_at(states[i + 1], subnet).contains_key(x));
        }
    }
}

/// The stored changes lead back from one state to the one before it.
proof fn lemma_recorded(states: Seq<StateView>, subnet: Seq<u8>, i: int)
    requires
        in_turn(states),
        0 < i < states.len(),
        nothing_ahead(states[0]),
        subnet.len() == 32,
    ensures
        records_weights(
            states.last().weight_diffs,
            subnet,
            states[i].height,
            weights_at(states[i - 1], subnet),
            taken_back(states, subnet, i),
        ),
{
    let a = states[i - 1];
    let b = states[i];
    let t = taken_back(states, subnet, i);
    let last = states.last();
    assert(follows(a, b));
    assert forall|k: Seq<u8>| #[trigger] a.weight_diffs.contains_key(k) implies !change_at(
        k,
        b.height,
    ) by {
        if subnet_key_height(k) > states[0].height {
            let j = lemma_changes_have_a_state(states, i - 1, k);
            lemma_heights_rise(states, j, i);
        } else {
            lemma_heights_rise(states, 0, i);
        }
    }
    assert forall|n: Seq<u8>| n.len() == 20 implies #[trigger] entry_of(t, n).weight == weight_of(
        current_weights(b.chain.current.set),
        member_key(subnet, n),
    ) by {
        lemma_taken_back(states, subnet, i, n);
    }
    stored_weight_changes_lead_back(
        a.weight_diffs,
        b.height,
        current_weights(a.chain.current.set),
        current_weights(b.chain.current.set),
        subnet,
        t,
    );
    assert forall|n: Seq<u8>|
        #![trigger subnet_diff_key(subnet, b.height, n)]
        n.len() == 20 implies {
        let k = subnet_diff_key(subnet, b.height, n);
        &&& last.weight_diffs.contains_key(k) == b.weight_diffs.contains_key(k)
        &&& last.weight_diffs.contains_key(k) ==> last.weight_diffs[k] == b.weight_diffs[k]
    } by {
        let k = subnet_diff_key(subnet, b.height, n);
        lemma_subnet_key_parts(k, subnet, b.height, n);
        lemma_older_changes_stay(states, i, states.len() - 1, k);
    }
}

/// Undoing the weights down to the state `i`.
proof fn lemma_weights_undone(
    states: Seq<StateView>,
    subnet: Seq<u8>,
    ks: Seq<Seq<u8>>,
    vs: Seq<Seq<u8>>,
    i: int,
)
    requires
        in_turn(states),
        0 <= i < states.len() - 1,
        nothing_ahead(states[0]),
        subnet.len() == 32,
        forall|j: int| 0 <= j < states.len() ==> weighty(#[trigger] states[j], subnet),
        lists(ks, vs, states.last().weight_diffs),
    ensures
        undo_weights(
            ks,
            vs,
            ks.len(),
            validators_at(states.last(), subnet),
            subnet,
            states.last().height,
            (states[i].height + 1) as u64,
        ) == (taken_back(states, subnet, i), true),
    decreases states.len() - i,
{
    let last = states.last();
    let set = validators_at(last, subnet);
    let next = states[i + 1];
    let t = taken_back(states, subnet, i + 1);
    let to = (states[i].height + 1) as u64;
    lemma_heights_rise(states, i, i + 1);
    lemma_heights_rise(states, i + 1, states.len() - 1);
    lemma_recorded(states, subnet, i + 1);
    assert(weighty(states[i], subnet) && weighty(next, subnet));
    assert forall|x: Seq<u8>| #[trigger] t.contains_key(x) implies t[x].weight > 0 && x.len()
        == 20 by {
        lemma_taken_back(states, subnet, i + 1, x);
        assert(weights_at(next, subnet).contains_key(x));
    }
    undoing_restores_weights(ks, vs, subnet, next.height, weights_at(states[i], subnet), t);
    assert forall|j: int| 0 <= j < ks.len() implies in_subnet_window(
        #[trigger] ks[j],
        subnet,
        next.height,
        next.height,
    ) == in_subnet_window(ks[j], subnet, next.height, to) by {
        let h = subnet_key_height(ks[j]);
        if to <= h < next.height {
            assert(ks.contains(ks[j]));
            assert(last.weight_diffs.contains_key(ks[j]));
            lemma_heights_rise(states, 0, i);
            let q = lemma_changes_have_a_state(states, states.len() - 1, ks[j]);
            if q <= i {
                lemma_heights_rise(states, q, i);
            } else {
                lemma_heights_rise(states, i + 1, q);
            }
        }
    }
    lemma_same_window(ks, vs, ks.len(), t, subnet, next.height, next.height, to);
    if i + 1 < states.len() - 1 {
        lemma_heights_rise(states, i + 1, states.len() - 1);
        lemma_weights_undone(states, subnet, ks, vs, i + 1);
        undoing_in_two_steps(ks, vs, set, subnet, last.height, next.height, to);
    }
}

/// Whether the `j`-th change lies in the window and is about the node `x`.
spec fn about(ks: Seq<Seq<u8>>, j: int, subnet: Seq<u8>, from: u64, to: u64, x: Seq<u8>) -> bool {
    in_subnet_window(ks[j], subnet, from, to) && key_node(ks[j]) == x
}

/// Of the changes that are about a node, the last one gives its key.
proof fn lemma_key_put_back(
    ks: Seq<Seq<u8>>,
    vs: Seq<Seq<u8>>,
    n: nat,
    set: SetView,
    subnet: Seq<u8>,
    from: u64,
    to: u64,
    x: Seq<u8>,
) -> (j: int)
    requires
        n <= ks.len(),
    ensures
        ({
            let r = undo_public_keys(ks, vs, n, set, subnet, from, to);
            &&& -1 <= j < n
            &&& r.contains_key(x) == set.contains_key(x)
            &&& set.contains_key(x) ==> r[x].weight == set[x].weight
            &&& forall|q: int| j < q < n ==> !#[trigger] about(ks, q, subnet, from, to, x)
            &&& j >= 0 ==> about(ks, j, subnet, from, to, x)
            &&& j >= 0 && set.contains_key(x) ==> key_bytes(r[x].public_key) == vs[j] && (
            r[x].public_key matches Some(k) ==> k.len() > 0)
            &&& j < 0 && set.contains_key(x) ==> r[x] == set[x]
        }),
    decreases n,
{
    if n == 0 {
        -1
    } else {
        let i = (n - 1) as nat;
        let m = undo_public_keys(ks, vs, i, set, subnet, from, to);
        let j = lemma_key_put_back(ks, vs, i, set, subnet, from, to, x);
        if in_subnet_window(ks[i as int], subnet, from, to) {
            let node = key_node(ks[i as int]);
            assert(undo_public_keys(ks, vs, n, set, subnet, from, to) == undo_public_key(
                m,
                node,
                vs[i as int],
            ));
            if node == x {
                assert(vs[i as int].len() == 0 ==> vs[i as int] =~= Seq::<u8>::empty());
                i as int
            } else {
                j
            }
        } else {
            j
        }
    }
}

/// The key of a node stays from one state to another, unless a change is stored.
proof fn lemma_key_stays(states: Seq<StateView>, subnet: Seq<u8>, i: int, j: int, x: Seq<u8>)
    requires
        in_turn(states),
        0 <= i <= j < states.len(),
        subnet.len() == 32,
        x.len() == 20,
        forall|q: int|
            i < q <= j ==> !states.last().key_diffs.contains_key(
                subnet_diff_key(subnet, #[trigger] states[q].height, x),
            ),
    ensures
        key_of(keys_at(states[i], subnet), x) == key_of(keys_at(states[j], subnet), x),
    decreases j - i,
{
    if i < j {
        lemma_key_stays(states, subnet, i, j - 1, x);
        let k = subnet_diff_key(subnet, states[j].height, x);
        lemma_change_key(k, subnet, states[j].height, x);
        assert(follows(states[j - 1], states[j]));
        lemma_older_changes_stay(states, j, states.len() - 1, k);
        assert(!states.last().key_diffs.contains_key(k));
    }
}

/// Putting the keys back gives a node of the first state the key that it had
/// there.
proof fn lemma_key_restored(
    states: Seq<StateView>,
    subnet: Seq<u8>,
    ks: Seq<Seq<u8>>,
    vs: Seq<Seq<u8>>,
    x: Seq<u8>,
)
    requires
        in_turn(states),
        states.len() > 1,
        nothing_ahead(states[0]),
        subnet.len() == 32,
        forall|j: int| 0 <= j < states.len() ==> weighty(#[trigger] states[j], subnet),
        lists(ks, vs, states.last().key_diffs),
    ensures
        ({
            let r = undo_public_keys(
                ks,
                vs,
                ks.len(),
                taken_back(states, subnet, 0),
                subnet,
                states.last().height,
                (states[0].height + 1) as u64,
            );
            let v = validators_at(states[0], subnet);
            &&& r.contains_key(x) == v.contains_key(x)
            &&& r.contains_key(x) ==> r[x] == v[x]
        }),
{
    let last = states.last();
    let n = states.len() - 1;
    let from = last.height;
    let to = (states[0].height + 1) as u64;
    let t = taken_back(states, subnet, 0);
    let r = undo_public_keys(ks, vs, ks.len(), t, subnet, from, to);
    let stored = last.key_diffs;
    lemma_taken_back(states, subnet, 0, x);
    lemma_heights_rise(states, 0, n);
    let p = lemma_key_put_back(ks, vs, ks.len(), t, subnet, from, to, x);
    if t.contains_key(x) {
        // A stored change of the node at a state has a place in the list.
        assert forall|q: int|
            0 < q <= n && stored.contains_key(
                subnet_diff_key(subnet, #[trigger] states[q].height, x),
            ) implies exists|j: int|
            0 <= j < ks.len() && ks[j] == subnet_diff_key(subnet, states[q].height, x) && about(
                ks,
                j,
                subnet,
                from,
                to,
                x,
            ) by {
            let k = subnet_diff_key(subnet, states[q].height, x);
            lemma_subnet_key_parts(k, subnet, states[q].height, x);
            lemma_heights_rise(states, 0, q);
            lemma_heights_rise(states, q, n);
            assert(ks.contains(k));
            let j = ks.index_of(k);
            assert(about(ks, j, subnet, from, to, x));
        }
        if p < 0 {
            assert forall|q: int| 0 < q <= n implies !stored.contains_key(
                subnet_diff_key(subnet, #[trigger] states[q].height, x),
            ) by {}
            lemma_key_stays(states, subnet, 0, n, x);
            if t[x].public_key != key_of(keys_at(last, subnet), x) {
                let j = choose|j: int|
                    0 <= j < states.len() && !weights_at(#[trigger] states[j], subnet).contains_key(
                        x,
                    );
                lemma_keys_have_weights(states[j], subnet, x);
                lemma_key_stays(states, subnet, 0, j, x);
            }
        } else {
            let k = ks[p];
            assert(ks.contains(k));
            assert(stored.contains_key(k));
            let q = lemma_changes_have_a_state(states, n, k);
            let h = states[q].height;
            lemma_change_key(k, subnet, h, x);
            assert(change_member(k) == member_key(subnet, x));
            assert(k == subnet_diff_key(subnet, h, x));
            // It is the oldest change of the node.
            assert forall|q1: int| 0 < q1 <= q - 1 implies !stored.contains_key(
                subnet_diff_key(subnet, #[trigger] states[q1].height, x),
            ) by {
                let k1 = subnet_diff_key(subnet, states[q1].height, x);
                if stored.contains_key(k1) {
                    let j = choose|j: int|
                        0 <= j < ks.len() && ks[j] == k1 && about(ks, j, subnet, from, to, x);
                    lemma_subnet_key_parts(k1, subnet, states[q1].height, x);
                    lemma_heights_rise(states, q1, q);
                    if j < p {
                        lemma_subnet_keys_in_order(ks[j], ks[p]);
                    }
                }
            }
            lemma_key_stays(states, subnet, 0, q - 1, x);
            assert(follows(states[q - 1], states[q]));
            lemma_older_changes_stay(states, q, n, k);
            assert(!states[q - 1].key_diffs.contains_key(k)) by {
                if states[q - 1].key_diffs.contains_key(k) {
                    let q2 = lemma_changes_have_a_state(states, q - 1, k);
                    lemma_heights_rise(states, q2, q);
                }
            }
            assert(key_changes(
                k,
                h,
                current_keys(states[q - 1].chain.current.set),
                current_keys(states[q].chain.current.set),
            ));
            assert(stored[k] == key_bytes(key_of(keys_at(states[q - 1], subnet), x)));
            assert(vs[p] == stored[k]) by {
                let j = ks.index_of(k);
                if j < p {
                    lemma_lex_antisymmetric(ks[j], ks[p]);
                } else if p < j {
                    lemma_lex_antisymmetric(ks[p], ks[j]);
                }
            }
            assert(weighty(states[q - 1], subnet));
            let key = key_of(keys_at(states[q - 1], subnet), x);
            assert(key_bytes(r[x].public_key) == key_bytes(key));
        }
    }
}

/// Undoing, on the current validators of a subnet, the changes of weights and
/// of keys that were stored with the blocks accepted since an earlier state
/// gives the validators of that state, with their weights and keys. `wk`, `wv`
/// and `kk`, `kv` are the stored changes of weights and of keys in order.
pub proof fn undoing_accepted_blocks(
    states: Seq<StateView>,
    subnet: Seq<u8>,
    wk: Seq<Seq<u8>>,
    wv: Seq<Seq<u8>>,
    kk: Seq<Seq<u8>>,
    kv: Seq<Seq<u8>>,
)
    requires
        states.len() > 1,
        in_turn(states),
        nothing_ahead(states[0]),
        subnet.len() == 32,
        forall|j: int| 0 <= j < states.len() ==> weighty(#[trigger] states[j], subnet),
        lists(wk, wv, states.last().weight_diffs),
        lists(kk, kv, states.last().key_diffs),
    ensures
        ({
            let from = states.last().height;
            let to = (states[0].height + 1) as u64;
            let w = undo_weights(
                wk,
                wv,
                wk.len(),
                validators_at(states.last(), subnet),
                subnet,
                from,
                to,
            );
            &&& w.1
            &&& undo_public_keys(kk, kv, kk.len(), w.0, subnet, from, to) == validators_at(
                states[0],
                subnet,
            )
        }),
{
    let from = states.last().height;
    let to = (states[0].height + 1) as u64;
    lemma_weights_undone(states, subnet, wk, wv, 0);
    let t = taken_back(states, subnet, 0);
    let r = undo_public_keys(kk, kv, kk.len(), t, subnet, from, to);
    let v = validators_at(states[0], subnet);
    assert forall|x: Seq<u8>|
        #![trigger r.contains_key(x)]
        #![trigger v.contains_key(x)]
        r.contains_key(x) == v.contains_key(x) && (r.contains_key(x) ==> r[x] == v[x]) by {
        lemma_key_restored(states, subnet, kk, kv, x);
    }
    assert(r =~= v);
}

/// Where every node with a current staker has a current validator, the
/// validators of a state are those that are listed by subnet.
pub proof fn current_sets_are_the_validators(s: StateView, subnet: Seq<u8>)
    requires
        subnet.len() == 32,
        ({
            let list = listing(s.chain.current.set);
            forall|i: int|
                0 <= i < list.len() && (#[trigger] list[i]).priority.current() ==> has_validator(
                    list,
                    list.len(),
                    list[i].subnet_id@,
                    list[i].node_id@,
                )
        }),
    ensures
        set_of(current_sets(s.chain.current.set), subnet) == validators_at(s, subnet),
{
    let list = listing(s.chain.current.set);
    let a = set_of(current_sets(s.chain.current.set), subnet);
    let b = validators_at(s, subnet);
    assert forall|y: Seq<u8>|
        #![trigger a.contains_key(y)]
        #![trigger b.contains_key(y)]
        a.contains_key(y) == b.contains_key(y) by {
        if a.contains_key(y) {
            let i = choose|i: int|
                0 <= i < list.len() && (#[trigger] list[i]).priority.current_validator()
                    && list[i].subnet_id@ == subnet && list[i].node_id@ == y;
            assert(list[i].priority.current());
            assert(list[i].node_id@.len() == 20);
        }
        if b.contains_key(y) {
            let i = choose|i: int|
                0 <= i < list.len() && (#[trigger] list[i]).priority.current()
                    && crate::state::stakers::member_of(list[i]) == member_key(subnet, y);
            assert(list[i].subnet_id@.len() == 32);
            lemma_member_key(list[i].subnet_id@, list[i].node_id@, subnet, y);
            assert(has_validator(list, list.len(), subnet, y));
            let j = choose|j: int|
                0 <= j < list.len() && (#[trigger] list[j]).priority.current_validator()
                    && list[j].subnet_id@ == subnet && list[j].node_id@ == y;
            assert(list[j].priority.current_validator());
        }
    }
    assert(a =~= b);
}

} // verus!
