//! Undoing changes for all subnets at once is undoing them for each.
use vstd::prelude::*;

use crate::codec::{be_value, lemma_be_be_value, lemma_be_value_bound, lemma_pow256};
use crate::collections::ordmap::{increasing, lemma_increasing_distinct, lemma_increasing_unique, zip_map};
use crate::order::{lemma_lex_antisymmetric, lemma_lex_leading_block, lemma_lex_shared_prefix, lemma_lex_total, lex_lt};
use crate::state::diff_iterators::{height_key_height, height_key_subnet, indexes_agree, key_node, set_of, stored_diff, subnet_key_height, undo_all_public_keys, undo_all_weights, undo_public_key, undo_public_keys, undo_weight, undo_weights, AllView, SetView};
use crate::state::disk_staker_diff_iterator::{height_diff_key, inverted, subnet_diff_key};

verus! {

/// The key, within the index by subnet, of the change that has the key `k` within
/// the index by height.
spec fn turned(k: Seq<u8>) -> Seq<u8> {
    k.subrange(8, 40) + k.take(8) + k.skip(40)
}

/// Those of the first `n` keys of the index by subnet that are of `subnet`.
spec fn own_keys(ks: Seq<Seq<u8>>, n: nat, subnet: Seq<u8>) -> Seq<Seq<u8>>
    decreases n,
{
    if n == 0 {
        Seq::empty()
    } else {
        let rest = own_keys(ks, (n - 1) as nat, subnet);
        if ks[n - 1].take(32) == subnet {
            rest.push(ks[n - 1])
        } else {
            rest
        }
    }
}

/// Those of the first `n` keys of the index by height that are of `subnet`, as
/// keys of the index by subnet.
spec fn turned_keys(ks: Seq<Seq<u8>>, n: nat, subnet: Seq<u8>) -> Seq<Seq<u8>>
    decreases n,
{
    if n == 0 {
        Seq::empty()
    } else {
        let rest = turned_keys(ks, (n - 1) as nat, subnet);
        if height_key_subnet(ks[n - 1]) == subnet {
            rest.push(turned(ks[n - 1]))
        } else {
            rest
        }
    }
}

proof fn lemma_turned(k: Seq<u8>)
    requires
        k.len() == 60,
    ensures
        turned(k).len() == 60,
        turned(k).take(32) == height_key_subnet(k),
        subnet_key_height(turned(k)) == height_key_height(k),
        key_node(turned(k)) == key_node(k),
        turned(k) == subnet_diff_key(height_key_subnet(k), height_key_height(k), key_node(k)),
        k == height_diff_key(height_key_height(k), height_key_subnet(k), key_node(k)),
{
    let t = turned(k);
    assert(t.take(32) =~= k.subrange(8, 40));
    assert(t.subrange(32, 40) =~= k.take(8));
    assert(t.skip(40) =~= k.skip(40));
    let hb = k.take(8);
    lemma_be_be_value(hb);
    lemma_be_value_bound(hb);
    lemma_pow256();
    let v = be_value(hb);
    assert(inverted(height_key_height(k)) == v);
    assert(k =~= hb + k.subrange(8, 40) + k.skip(40));
}

/// Of one subnet, the keys stand in the same order within both indexes.
proof fn lemma_turned_order(a: Seq<u8>, b: Seq<u8>)
    requires
        a.len() == 60,
        b.len() == 60,
        height_key_subnet(a) == height_key_subnet(b),
        lex_lt(a, b),
    ensures
        lex_lt(turned(a), turned(b)),
{
    let s = height_key_subnet(a);
    let (ha, na) = (a.take(8), a.skip(40));
    let (hb, nb) = (b.take(8), b.skip(40));
    assert(a =~= ha + (s + na));
    assert(b =~= hb + (s + nb));
    assert(turned(a) =~= s + (ha + na));
    assert(turned(b) =~= s + (hb + nb));
    lemma_lex_shared_prefix(s, ha + na, hb + nb);
    if ha == hb {
        lemma_lex_shared_prefix(ha, s + na, s + nb);
        lemma_lex_shared_prefix(s, na, nb);
        lemma_lex_shared_prefix(ha, na, nb);
    } else {
        lemma_lex_total(ha, hb);
        if lex_lt(ha, hb) {
            lemma_lex_leading_block(ha, hb, na, nb);
        } else {
            lemma_lex_leading_block(hb, ha, s + nb, s + na);
            lemma_lex_antisymmetric(a, b);
        }
    }
}

proof fn lemma_own_keys(ks: Seq<Seq<u8>>, n: nat, subnet: Seq<u8>)
    requires
        n <= ks.len(),
        increasing(ks),
    ensures
        increasing(own_keys(ks, n, subnet)),
        forall|i: int|
            0 <= i < own_keys(ks, n, subnet).len() ==> (#[trigger] own_keys(
                ks,
                n,
                subnet,
            )[i]).take(32) == subnet && ks.take(n as int).contains(own_keys(ks, n, subnet)[i]),
        forall|j: int|
            0 <= j < n && (#[trigger] ks[j]).take(32) == subnet ==> own_keys(
                ks,
                n,
                subnet,
            ).contains(ks[j]),
    decreases n,
{
    if n > 0 {
        let m = (n - 1) as nat;
        lemma_own_keys(ks, m, subnet);
        let rest = own_keys(ks, m, subnet);
        let all = own_keys(ks, n, subnet);
        let k = ks[m as int];
        assert forall|i: int| 0 <= i < all.len() implies (#[trigger] all[i]).take(32) == subnet
            && ks.take(n as int).contains(all[i]) by {
            if i < rest.len() {
                assert(all[i] == rest[i]);
                let j = ks.take(m as int).index_of(rest[i]);
                assert(ks.take(n as int)[j] == all[i]);
            } else {
                assert(ks.take(n as int)[m as int] == all[i]);
            }
        }
        assert forall|i: int, j: int| 0 <= i < j < all.len() implies lex_lt(
            #[trigger] all[i],
            #[trigger] all[j],
        ) by {
            assert(all[i] == rest[i]);
            if j < rest.len() {
                assert(all[j] == rest[j]);
            } else {
                let x = ks.take(m as int).index_of(rest[i]);
                assert(ks[x] == rest[i]);
                assert(lex_lt(ks[x], ks[m as int]));
            }
        }
        assert forall|j: int| 0 <= j < n && (#[trigger] ks[j]).take(32) == subnet implies
            all.contains(ks[j]) by {
            if j < m {
                let x = rest.index_of(ks[j]);
                assert(all[x] == ks[j]);
            } else {
                assert(all[rest.len() as int] == k);
            }
        }
    }
}

/// Whether `x` is the turned key of one of the first `n` keys that are of
/// `subnet`.
spec fn comes_from(ks: Seq<Seq<u8>>, n: nat, subnet: Seq<u8>, x: Seq<u8>) -> bool {
    exists|j: int|
        0 <= j < n && height_key_subnet(#[trigger] ks[j]) == subnet && turned(ks[j]) == x
}

proof fn lemma_turned_keys(ks: Seq<Seq<u8>>, n: nat, subnet: Seq<u8>)
    requires
        n <= ks.len(),
        increasing(ks),
        forall|j: int| 0 <= j < ks.len() ==> (#[trigger] ks[j]).len() == 60,
    ensures
        increasing(turned_keys(ks, n, subnet)),
        forall|i: int|
            0 <= i < turned_keys(ks, n, subnet).len() ==> comes_from(
                ks,
                n,
                subnet,
                #[trigger] turned_keys(ks, n, subnet)[i],
            ),
        forall|j: int|
            0 <= j < n && height_key_subnet(#[trigger] ks[j]) == subnet ==> turned_keys(
                ks,
                n,
                subnet,
            ).contains(turned(ks[j])),
    decreases n,
{
    if n > 0 {
        let m = (n - 1) as nat;
        lemma_turned_keys(ks, m, subnet);
        let rest = turned_keys(ks, m, subnet);
        let all = turned_keys(ks, n, subnet);
        let k = ks[m as int];
        assert forall|i: int| 0 <= i < all.len() implies comes_from(
            ks,
            n,
            subnet,
            #[trigger] all[i],
        ) by {
            if i < rest.len() {
                assert(all[i] == rest[i]);
                assert(comes_from(ks, m, subnet, rest[i]));
            } else {
                assert(height_key_subnet(ks[m as int]) == subnet);
            }
        }
        assert forall|i: int, j: int| 0 <= i < j < all.len() implies lex_lt(
            #[trigger] all[i],
            #[trigger] all[j],
        ) by {
            assert(all[i] == rest[i]);
            if j < rest.len() {
                assert(all[j] == rest[j]);
            } else {
                assert(comes_from(ks, m, subnet, rest[i]));
                let x = choose|x: int|
                    0 <= x < m && height_key_subnet(#[trigger] ks[x]) == subnet && turned(ks[x])
                        == rest[i];
                assert(lex_lt(ks[x], ks[m as int]));
                lemma_turned_order(ks[x], k);
            }
        }
        assert forall|j: int| 0 <= j < n && height_key_subnet(#[trigger] ks[j]) == subnet implies
            all.contains(turned(ks[j])) by {
            if j < m {
                let x = rest.index_of(turned(ks[j]));
                assert(all[x] == turned(ks[j]));
            } else {
                assert(all[rest.len() as int] == turned(k));
            }
        }
    }
}

/// Both indexes hold the same keys of a subnet, in the same order.
proof fn lemma_same_keys(
    by_subnet: Seq<Seq<u8>>,
    vs: Seq<Seq<u8>>,
    by_height: Seq<Seq<u8>>,
    ws: Seq<Seq<u8>>,
    subnet: Seq<u8>,
)
    requires
        increasing(by_subnet),
        increasing(by_height),
        indexes_agree(zip_map(by_subnet, vs), zip_map(by_height, ws)),
        subnet.len() == 32,
    ensures
        own_keys(by_subnet, by_subnet.len(), subnet) == turned_keys(
            by_height,
            by_height.len(),
            subnet,
        ),
{
    let m = zip_map(by_subnet, vs);
    let w = zip_map(by_height, ws);
    assert forall|j: int| 0 <= j < by_height.len() implies (#[trigger] by_height[j]).len() == 60 by {
        assert(w.contains_key(by_height[j]));
    }
    lemma_own_keys(by_subnet, by_subnet.len(), subnet);
    lemma_turned_keys(by_height, by_height.len(), subnet);
    let a = own_keys(by_subnet, by_subnet.len(), subnet);
    let b = turned_keys(by_height, by_height.len(), subnet);
    assert(by_subnet.take(by_subnet.len() as int) =~= by_subnet);
    assert forall|i: int| 0 <= i < a.len() implies b.contains(#[trigger] a[i]) by {
        let k = a[i];
        assert(by_subnet.contains(k));
        assert(m.contains_key(k));
        assert(k.len() == 60);
        let hb = k.subrange(32, 40);
        let node = k.skip(40);
        let h = subnet_key_height(k);
        lemma_be_be_value(hb);
        lemma_be_value_bound(hb);
        lemma_pow256();
        assert(inverted(h) == be_value(hb));
        assert(k =~= subnet_diff_key(subnet, h, node));
        let t = height_diff_key(h, subnet, node);
        assert(w.contains_key(t));
        let j = by_height.index_of(t);
        assert(by_height[j] == t);
        assert(t.subrange(8, 40) =~= subnet);
        assert(turned(t) =~= k);
    }
    assert forall|i: int| 0 <= i < b.len() implies a.contains(#[trigger] b[i]) by {
        assert(comes_from(by_height, by_height.len(), subnet, b[i]));
        let j = choose|j: int|
            0 <= j < by_height.len() && height_key_subnet(#[trigger] by_height[j]) == subnet
                && turned(by_height[j]) == b[i];
        let k = by_height[j];
        lemma_turned(k);
        assert(w.contains_key(k));
        assert(key_node(k).len() == 20);
        assert(m.contains_key(subnet_diff_key(subnet, height_key_height(k), key_node(k))));
        let x = by_subnet.index_of(turned(k));
        assert(by_subnet[x] == turned(k));
    }
    lemma_increasing_unique(a, b);
}

/// Undoes the changes of weights that have the keys `es`, with a height from `to`
/// to `from`, until one cannot be undone.
spec fn undo_listed(
    es: Seq<Seq<u8>>,
    m: Map<Seq<u8>, Seq<u8>>,
    set: SetView,
    from: u64,
    to: u64,
) -> (SetView, bool)
    decreases es.len(),
{
    if es.len() == 0 {
        (set, true)
    } else {
        let (s, ok) = undo_listed(es.drop_last(), m, set, from, to);
        let k = es.last();
        if ok && to <= subnet_key_height(k) <= from {
            undo_weight(s, key_node(k), stored_diff(m[k]))
        } else {
            (s, ok)
        }
    }
}

proof fn lemma_zip_value(ks: Seq<Seq<u8>>, vs: Seq<Seq<u8>>, i: int)
    requires
        increasing(ks),
        0 <= i < ks.len(),
    ensures
        zip_map(ks, vs).contains_key(ks[i]),
        zip_map(ks, vs)[ks[i]] == vs[i],
{
    lemma_increasing_distinct(ks);
    assert(ks.contains(ks[i]));
}

proof fn lemma_undo_own(
    ks: Seq<Seq<u8>>,
    vs: Seq<Seq<u8>>,
    n: nat,
    set: SetView,
    subnet: Seq<u8>,
    from: u64,
    to: u64,
)
    requires
        n <= ks.len(),
        increasing(ks),
    ensures
        undo_weights(ks, vs, n, set, subnet, from, to) == undo_listed(
            own_keys(ks, n, subnet),
            zip_map(ks, vs),
            set,
            from,
            to,
        ),
    decreases n,
{
    if n > 0 {
        let m = (n - 1) as nat;
        lemma_undo_own(ks, vs, m, set, subnet, from, to);
        lemma_zip_value(ks, vs, m as int);
        let rest = own_keys(ks, m, subnet);
        assert(rest.push(ks[m as int]).drop_last() =~= rest);
    }
}

proof fn lemma_undo_turned(
    ks: Seq<Seq<u8>>,
    vs: Seq<Seq<u8>>,
    stored: Map<Seq<u8>, Seq<u8>>,
    n: nat,
    all: AllView,
    subnet: Seq<u8>,
    from: u64,
    to: u64,
)
    requires
        n <= ks.len(),
        increasing(ks),
        indexes_agree(stored, zip_map(ks, vs)),
        undo_all_weights(ks, vs, n, all, from, to).1,
    ensures
        undo_listed(turned_keys(ks, n, subnet), stored, set_of(all, subnet), from, to) == (
            set_of(undo_all_weights(ks, vs, n, all, from, to).0, subnet),
            true,
        ),
    decreases n,
{
    if n > 0 {
        let m = (n - 1) as nat;
        let k = ks[m as int];
        lemma_undo_turned(ks, vs, stored, m, all, subnet, from, to);
        lemma_zip_value(ks, vs, m as int);
        lemma_turned(k);
        assert(key_node(k).len() == 20);
        assert(stored[turned(k)] == vs[m as int]);
        let rest = turned_keys(ks, m, subnet);
        assert(rest.push(turned(k)).drop_last() =~= rest);
    }
}

/// Undoing changes of weights for all subnets at once leaves each subnet with the
/// validators that undoing its changes alone leaves it with.
pub proof fn undoing_weights_for_all_undoes_each(
    by_subnet: Seq<Seq<u8>>,
    vs: Seq<Seq<u8>>,
    by_height: Seq<Seq<u8>>,
    ws: Seq<Seq<u8>>,
    all: AllView,
    subnet: Seq<u8>,
    from: u64,
    to: u64,
)
    requires
        increasing(by_subnet),
        increasing(by_height),
        indexes_agree(zip_map(by_subnet, vs), zip_map(by_height, ws)),
        subnet.len() == 32,
        undo_all_weights(by_height, ws, by_height.len(), all, from, to).1,
    ensures
        undo_weights(by_subnet, vs, by_subnet.len(), set_of(all, subnet), subnet, from, to) == (
            set_of(undo_all_weights(by_height, ws, by_height.len(), all, from, to).0, subnet),
            true,
        ),
{
    lemma_same_keys(by_subnet, vs, by_height, ws, subnet);
    lemma_undo_own(by_subnet, vs, by_subnet.len(), set_of(all, subnet), subnet, from, to);
    lemma_undo_turned(
        by_height,
        ws,
        zip_map(by_subnet, vs),
        by_height.len(),
        all,
        subnet,
        from,
        to,
    );
}

/// Puts back the keys that the changes `es` replaced, with a height from `to` to
/// `from`.
spec fn rekey_listed(
    es: Seq<Seq<u8>>,
    m: Map<Seq<u8>, Seq<u8>>,
    set: SetView,
    from: u64,
    to: u64,
) -> SetView
    decreases es.len(),
{
    if es.len() == 0 {
        set
    } else {
        let s = rekey_listed(es.drop_last(), m, set, from, to);
        let k = es.last();
        if to <= subnet_key_height(k) <= from {
            undo_public_key(s, key_node(k), m[k])
        } else {
            s
        }
    }
}

proof fn lemma_rekey_own(
    ks: Seq<Seq<u8>>,
    vs: Seq<Seq<u8>>,
    n: nat,
    set: SetView,
    subnet: Seq<u8>,
    from: u64,
    to: u64,
)
    requires
        n <= ks.len(),
        increasing(ks),
    ensures
        undo_public_keys(ks, vs, n, set, subnet, from, to) == rekey_listed(
            own_keys(ks, n, subnet),
            zip_map(ks, vs),
            set,
            from,
            to,
        ),
    decreases n,
{
    if n > 0 {
        let m = (n - 1) as nat;
        lemma_rekey_own(ks, vs, m, set, subnet, from, to);
        lemma_zip_value(ks, vs, m as int);
        let rest = own_keys(ks, m, subnet);
        assert(rest.push(ks[m as int]).drop_last() =~= rest);
    }
}

proof fn lemma_rekey_turned(
    ks: Seq<Seq<u8>>,
    vs: Seq<Seq<u8>>,
    stored: Map<Seq<u8>, Seq<u8>>,
    n: nat,
    all: AllView,
    subnet: Seq<u8>,
    from: u64,
    to: u64,
)
    requires
        n <= ks.len(),
        increasing(ks),
        indexes_agree(stored, zip_map(ks, vs)),
    ensures
        rekey_listed(turned_keys(ks, n, subnet), stored, set_of(all, subnet), from, to) == set_of(
            undo_all_public_keys(ks, vs, n, all, from, to),
            subnet,
        ),
    decreases n,
{
    if n > 0 {
        let m = (n - 1) as nat;
        let k = ks[m as int];
        lemma_rekey_turned(ks, vs, stored, m, all, subnet, from, to);
        lemma_zip_value(ks, vs, m as int);
        lemma_turned(k);
        assert(key_node(k).len() == 20);
        assert(stored[turned(k)] == vs[m as int]);
        let rest = turned_keys(ks, m, subnet);
        assert(rest.push(turned(k)).drop_last() =~= rest);
    }
}

/// Putting keys back for all subnets at once leaves each subnet with the validators
/// that putting back its keys alone leaves it with.
pub proof fn undoing_keys_for_all_undoes_each(
    by_subnet: Seq<Seq<u8>>,
    vs: Seq<Seq<u8>>,
    by_height: Seq<Seq<u8>>,
    ws: Seq<Seq<u8>>,
    all: AllView,
    subnet: Seq<u8>,
    from: u64,
    to: u64,
)
    requires
        increasing(by_subnet),
        increasing(by_height),
        indexes_agree(zip_map(by_subnet, vs), zip_map(by_height, ws)),
        subnet.len() == 32,
    ensures
        undo_public_keys(by_subnet, vs, by_subnet.len(), set_of(all, subnet), subnet, from, to)
            == set_of(
            undo_all_public_keys(by_height, ws, by_height.len(), all, from, to),
            subnet,
        ),
{
    lemma_same_keys(by_subnet, vs, by_height, ws, subnet);
    lemma_rekey_own(by_subnet, vs, by_subnet.len(), set_of(all, subnet), subnet, from, to);
    lemma_rekey_turned(
        by_height,
        ws,
        zip_map(by_subnet, vs),
        by_height.len(),
        all,
        subnet,
        from,
        to,
    );
}

} // verus!
