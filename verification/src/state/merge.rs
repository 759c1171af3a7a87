//! How the entries of one map change another, one after the other.
use vstd::prelude::*;

use crate::collections::ordmap::increasing;
use crate::order::lemma_lex_antisymmetric;

verus! {

/// Whether `k` is among the first `n` keys.
pub open spec fn among(ks: Seq<Seq<u8>>, n: int, k: Seq<u8>) -> bool {
    exists|j: int| 0 <= j < n && #[trigger] ks[j] == k
}

/// `base`, with the first `n` keys as `f` says: a value, or none.
pub open spec fn merged_upto<W>(
    base: Map<Seq<u8>, W>,
    ks: Seq<Seq<u8>>,
    n: int,
    f: spec_fn(Seq<u8>) -> Option<W>,
) -> Map<Seq<u8>, W> {
    Map::new(
        |k: Seq<u8>|
            if among(ks, n, k) {
                f(k) is Some
            } else {
                base.contains_key(k)
            },
        |k: Seq<u8>|
            if among(ks, n, k) {
                f(k)->0
            } else {
                base[k]
            },
    )
}

/// `base`, with the keys of `over` as `f` says: a value, or none.
pub open spec fn merged<W, U>(
    base: Map<Seq<u8>, W>,
    over: Map<Seq<u8>, U>,
    f: spec_fn(Seq<u8>) -> Option<W>,
) -> Map<Seq<u8>, W> {
    Map::new(
        |k: Seq<u8>|
            if over.contains_key(k) {
                f(k) is Some
            } else {
                base.contains_key(k)
            },
        |k: Seq<u8>|
            if over.contains_key(k) {
                f(k)->0
            } else {
                base[k]
            },
    )
}

/// `base` with the entries of `over` in place of its own.
pub open spec fn overlaid<W>(base: Map<Seq<u8>, W>, over: Map<Seq<u8>, W>) -> Map<Seq<u8>, W> {
    merged(base, over, |k: Seq<u8>| Some(over[k]))
}

/// `base` with the entries of `over` in place of its own, and without those
/// that `over` has none of.
pub open spec fn patched<W>(base: Map<Seq<u8>, W>, over: Map<Seq<u8>, Option<W>>) -> Map<Seq<u8>, W> {
    merged(base, over, |k: Seq<u8>| over[k])
}

/// Before the first key nothing is changed.
pub proof fn lemma_merged_start<W>(
    base: Map<Seq<u8>, W>,
    ks: Seq<Seq<u8>>,
    f: spec_fn(Seq<u8>) -> Option<W>,
)
    ensures
        merged_upto(base, ks, 0, f) == base,
{
    assert(merged_upto(base, ks, 0, f) =~= base);
}

/// One key more changes one entry.
pub proof fn lemma_merged_step<W>(
    base: Map<Seq<u8>, W>,
    ks: Seq<Seq<u8>>,
    n: int,
    f: spec_fn(Seq<u8>) -> Option<W>,
)
    requires
        0 <= n < ks.len(),
        increasing(ks),
    ensures
        merged_upto(base, ks, n + 1, f) == match f(ks[n]) {
            Some(v) => merged_upto(base, ks, n, f).insert(ks[n], v),
            None => merged_upto(base, ks, n, f).remove(ks[n]),
        },
        merged_upto(base, ks, n, f).contains_key(ks[n]) == base.contains_key(ks[n]),
        base.contains_key(ks[n]) ==> merged_upto(base, ks, n, f)[ks[n]] == base[ks[n]],
{
    let k = ks[n];
    assert forall|x: Seq<u8>| #[trigger] among(ks, n + 1, x) == (among(ks, n, x) || x == k) by {
        if among(ks, n + 1, x) {
            let j = choose|j: int| 0 <= j < n + 1 && #[trigger] ks[j] == x;
            if j < n {
                assert(among(ks, n, x));
            }
        }
        if among(ks, n, x) {
            let j = choose|j: int| 0 <= j < n && #[trigger] ks[j] == x;
            assert(ks[j] == x);
        }
        if x == k {
            assert(ks[n] == x);
        }
    }
    assert(!among(ks, n, k)) by {
        if among(ks, n, k) {
            let j = choose|j: int| 0 <= j < n && #[trigger] ks[j] == k;
            lemma_lex_antisymmetric(ks[j], ks[n]);
        }
    }
    match f(k) {
        Some(v) => {
            assert(merged_upto(base, ks, n + 1, f) =~= merged_upto(base, ks, n, f).insert(k, v));
        },
        None => {
            assert(merged_upto(base, ks, n + 1, f) =~= merged_upto(base, ks, n, f).remove(k));
        },
    }
}

/// Behind the last key all is changed.
pub proof fn lemma_merged_end<W, U>(
    base: Map<Seq<u8>, W>,
    over: Map<Seq<u8>, U>,
    ks: Seq<Seq<u8>>,
    f: spec_fn(Seq<u8>) -> Option<W>,
)
    requires
        forall|i: int| 0 <= i < ks.len() ==> over.contains_key(#[trigger] ks[i]),
        forall|k: Seq<u8>| #[trigger] over.contains_key(k) ==> ks.contains(k),
    ensures
        merged_upto(base, ks, ks.len() as int, f) == merged(base, over, f),
{
    assert forall|x: Seq<u8>| #[trigger] among(ks, ks.len() as int, x) == over.contains_key(x) by {
        if over.contains_key(x) {
            assert(ks[ks.index_of(x)] == x);
        }
        if among(ks, ks.len() as int, x) {
            let j = choose|j: int| 0 <= j < ks.len() && #[trigger] ks[j] == x;
            assert(over.contains_key(ks[j]));
        }
    }
    assert(merged_upto(base, ks, ks.len() as int, f) =~= merged(base, over, f));
}

/// One more entry on top.
pub proof fn lemma_overlaid_insert<W>(
    base: Map<Seq<u8>, W>,
    over: Map<Seq<u8>, W>,
    k: Seq<u8>,
    v: W,
)
    ensures
        overlaid(base, over.insert(k, v)) == overlaid(base, over).insert(k, v),
{
    assert(overlaid(base, over.insert(k, v)) =~= overlaid(base, over).insert(k, v));
}

/// One more entry on top.
pub proof fn lemma_patched_insert<W>(
    base: Map<Seq<u8>, W>,
    over: Map<Seq<u8>, Option<W>>,
    k: Seq<u8>,
    v: Option<W>,
)
    ensures
        patched(base, over.insert(k, v)) == match v {
            Some(w) => patched(base, over).insert(k, w),
            None => patched(base, over).remove(k),
        },
{
    match v {
        Some(w) => {
            assert(patched(base, over.insert(k, v)) =~= patched(base, over).insert(k, w));
        },
        None => {
            assert(patched(base, over.insert(k, v)) =~= patched(base, over).remove(k));
        },
    }
}

/// Nothing on top changes nothing.
pub proof fn lemma_nothing_on_top<W>(base: Map<Seq<u8>, W>)
    ensures
        overlaid(base, Map::empty()) == base,
        patched(base, Map::empty()) == base,
{
    assert(overlaid(base, Map::empty()) =~= base);
    assert(patched(base, Map::empty()) =~= base);
}

} // verus!
