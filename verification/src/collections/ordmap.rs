//! A map kept in the order of its keys.
use vstd::prelude::*;

use crate::order::{bytes_copy, lemma_lex_antisymmetric, lemma_lex_total, lemma_lex_transitive, lex_lt};

verus! {

/// A key of an [`OrdMap`]: keys are told apart and ordered by their rank.
pub trait Key: Sized {
    /// The byte string that stands for the key.
    spec fn rank(&self) -> Seq<u8>;

    /// Whether this key comes strictly before `other`.
    fn precedes(&self, other: &Self) -> (r: bool)
        ensures
            r == lex_lt(self.rank(), other.rank()),
    ;

    /// Whether this key and `other` are the same key.
    fn same(&self, other: &Self) -> (r: bool)
        ensures
            r == (self.rank() == other.rank()),
    ;

    /// A copy of this key.
    fn copied(&self) -> (r: Self)
        ensures
            r.rank() == self.rank(),
    ;
}

/// A value that can be copied.
pub trait Dup: View + Sized {
    /// A copy of this value.
    fn dup(&self) -> (r: Self)
        ensures
            r@ == self@,
    ;
}

impl Dup for Vec<u8> {
    fn dup(&self) -> (r: Vec<u8>) {
        bytes_copy(self.as_slice())
    }
}

impl Dup for () {
    fn dup(&self) -> (r: ()) {
    }
}

impl Dup for u8 {
    fn dup(&self) -> (r: u8) {
        *self
    }
}

impl Dup for u32 {
    fn dup(&self) -> (r: u32) {
        *self
    }
}

impl Dup for u64 {
    fn dup(&self) -> (r: u64) {
        *self
    }
}

/// Byte strings in strictly increasing order.
pub open spec fn increasing(ks: Seq<Seq<u8>>) -> bool {
    forall|i: int, j: int| 0 <= i < j < ks.len() ==> lex_lt(#[trigger] ks[i], #[trigger] ks[j])
}

/// The map that pairs the `i`-th key with the `i`-th value.
pub open spec fn zip_map<W>(ks: Seq<Seq<u8>>, vs: Seq<W>) -> Map<Seq<u8>, W> {
    Map::new(|k: Seq<u8>| ks.contains(k), |k: Seq<u8>| vs[ks.index_of(k)])
}

/// A map from keys to values, kept in increasing order of the keys.
pub struct OrdMap<K: Key, V: View> {
    entries: Vec<(K, V)>,
}

impl<K: Key, V: View> View for OrdMap<K, V> {
    type V = Map<Seq<u8>, V::V>;

    closed spec fn view(&self) -> Map<Seq<u8>, V::V> {
        zip_map(self.keys(), self.vals())
    }
}

/// Two increasing sequences of the same keys are the same.
pub proof fn lemma_increasing_unique(a: Seq<Seq<u8>>, b: Seq<Seq<u8>>)
    requires
        increasing(a),
        increasing(b),
        forall|i: int| 0 <= i < a.len() ==> b.contains(#[trigger] a[i]),
        forall|i: int| 0 <= i < b.len() ==> a.contains(#[trigger] b[i]),
    ensures
        a == b,
    decreases a.len(),
{
    if a.len() == 0 {
        if b.len() > 0 {
            assert(a.contains(b[0]));
        }
        assert(a =~= b);
    } else {
        let n = a.len() - 1;
        assert(b.contains(a[n]));
        let m = b.len() - 1;
        assert(a.contains(b[m]));
        let i = a.index_of(b[m]);
        let j = b.index_of(a[n]);
        if j < m {
            assert(lex_lt(b[j], b[m]));
            lemma_lex_antisymmetric(b[j], b[m]);
            assert(i < n);
            assert(lex_lt(a[i], a[n]));
        }
        assert(a[n] == b[m]);
        let a1 = a.drop_last();
        let b1 = b.drop_last();
        assert forall|x: int| 0 <= x < a1.len() implies b1.contains(#[trigger] a1[x]) by {
            assert(b.contains(a[x]));
            let y = b.index_of(a[x]);
            lemma_lex_antisymmetric(a[x], a[n]);
            assert(b1[y] == a1[x]);
        }
        assert forall|x: int| 0 <= x < b1.len() implies a1.contains(#[trigger] b1[x]) by {
            assert(a.contains(b[x]));
            let y = a.index_of(b[x]);
            lemma_lex_antisymmetric(b[x], b[m]);
            assert(a1[y] == b1[x]);
        }
        lemma_increasing_unique(a1, b1);
        assert(a =~= a1.push(a[n]));
        assert(b =~= b1.push(b[m]));
    }
}

/// In an increasing sequence every key stands once.
pub proof fn lemma_increasing_distinct(ks: Seq<Seq<u8>>)
    requires
        increasing(ks),
    ensures
        forall|i: int, j: int|
            0 <= i < ks.len() && 0 <= j < ks.len() && #[trigger] ks[i] == #[trigger] ks[j] ==> i == j,
        forall|i: int| 0 <= i < ks.len() ==> ks.index_of(#[trigger] ks[i]) == i,
{
    assert forall|i: int, j: int|
        0 <= i < ks.len() && 0 <= j < ks.len() && #[trigger] ks[i] == #[trigger] ks[j] implies i
        == j by {
        if i < j {
            lemma_lex_antisymmetric(ks[i], ks[j]);
        } else if j < i {
            lemma_lex_antisymmetric(ks[j], ks[i]);
        }
    }
}

impl<K: Key, V: View> OrdMap<K, V> {
    /// The keys, in order.
    pub closed spec fn keys(&self) -> Seq<Seq<u8>> {
        self.entries@.map_values(|e: (K, V)| e.0.rank())
    }

    /// The values, in the order of their keys.
    pub closed spec fn vals(&self) -> Seq<V::V> {
        self.entries@.map_values(|e: (K, V)| e.1@)
    }

    #[verifier::type_invariant]
    spec fn inv(&self) -> bool {
        increasing(self.keys())
    }

    /// A map has finitely many keys.
    pub proof fn keys_are_finite(&self)
        ensures
            self@.dom().finite(),
    {
        assert(self@.dom() =~= self.keys().to_set());
        vstd::seq_lib::seq_to_set_is_finite(self.keys());
    }

    /// The empty map.
    pub fn new() -> (r: OrdMap<K, V>)
        ensures
            r@ == Map::<Seq<u8>, V::V>::empty(),
            r.keys().len() == 0,
    {
        let r = OrdMap { entries: Vec::new() };
        assert(r.keys() =~= Seq::empty());
        assert(r@ =~= Map::empty());
        r
    }

    /// The number of entries. The keys are in increasing order, and they are
    /// exactly the keys of the map.
    pub fn len(&self) -> (n: usize)
        ensures
            n == self.keys().len(),
            n == self.vals().len(),
            self@ == zip_map(self.keys(), self.vals()),
            increasing(self.keys()),
            forall|i: int|
                0 <= i < n ==> self@.contains_key(#[trigger] self.keys()[i]) && self@[self.keys()[i]]
                    == self.vals()[i],
            forall|k: Seq<u8>| #[trigger] self@.contains_key(k) ==> self.keys().contains(k),
    {
        proof {
            use_type_invariant(self);
            lemma_increasing_distinct(self.keys());
            assert forall|i: int| 0 <= i < self.keys().len() implies self@.contains_key(
                #[trigger] self.keys()[i],
            ) && self@[self.keys()[i]] == self.vals()[i] by {
                assert(self.keys().contains(self.keys()[i]));
            }
        }
        self.entries.len()
    }

    /// The `i`-th key.
    pub fn key_at(&self, i: usize) -> (k: &K)
        requires
            i < self.keys().len(),
        ensures
            k.rank() == self.keys()[i as int],
    {
        &self.entries[i].0
    }

    /// The `i`-th value.
    pub fn val_at(&self, i: usize) -> (v: &V)
        requires
            i < self.keys().len(),
        ensures
            v@ == self.vals()[i as int],
    {
        &self.entries[i].1
    }

    /// Whether the map has no entries.
    pub fn is_empty(&self) -> (r: bool)
        ensures
            r == (self@ == Map::<Seq<u8>, V::V>::empty()),
            r == (self.keys().len() == 0),
    {
        let r = self.entries.len() == 0;
        proof {
            if r {
                assert(self.keys() =~= Seq::empty());
                assert(self@ =~= Map::empty());
            } else {
                assert(self.keys().contains(self.keys()[0]));
                assert(self@.contains_key(self.keys()[0]));
            }
        }
        r
    }

    /// The place of the first key that does not come before `k`.
    pub fn first_from(&self, k: &K) -> (p: usize)
        ensures
            p <= self.keys().len(),
            forall|i: int| 0 <= i < p ==> lex_lt(#[trigger] self.keys()[i], k.rank()),
            forall|i: int| p <= i < self.keys().len() ==> !lex_lt(#[trigger] self.keys()[i], k.rank()),
    {
        self.position(k)
    }

    /// Takes `k` out of the map and hands out what it mapped to.
    pub fn take(&mut self, k: &K) -> (r: Option<V>)
        ensures
            final(self)@ == old(self)@.remove(k.rank()),
            r is Some <==> old(self)@.contains_key(k.rank()),
            r matches Some(v) ==> v@ == old(self)@[k.rank()],
    {
        proof {
            use_type_invariant(&*self);
        }
        let ghost ks = self.keys();
        let ghost vs = self.vals();
        let ghost es = self.entries@;
        match self.find(k) {
            Some(p) => {
                proof {
                    let es2 = es.remove(p as int);
                    let ks2 = es2.map_values(|e: (K, V)| e.0.rank());
                    let vs2 = es2.map_values(|e: (K, V)| e.1@);
                    assert(ks2 =~= ks.remove(p as int));
                    assert(vs2 =~= vs.remove(p as int));
                    lemma_remove_present(ks, vs, p as int);
                }
                let mut es: Vec<(K, V)> = Vec::new();
                std::mem::swap(&mut self.entries, &mut es);
                let (_, v) = es.remove(p);
                self.entries = es;
                Some(v)
            },
            None => {
                assert(self@.remove(k.rank()) =~= self@);
                None
            },
        }
    }

    /// The values, in the order of their keys.
    pub fn into_vals(self) -> (r: Vec<V>)
        ensures
            r@.map_values(|v: V| v@) == self.vals(),
    {
        let ghost all = self.vals();
        let mut es: Vec<(K, V)> = self.entries;
        let mut out: Vec<V> = Vec::new();
        let ghost start = es@;
        while es.len() > 0
            invariant
                all == start.map_values(|e: (K, V)| e.1@),
                es@.len() + out@.len() == start.len(),
                es@ == start.take(es@.len() as int),
                out@.map_values(|v: V| v@) == all.skip(es@.len() as int).reverse(),
            decreases es@.len(),
        {
            let ghost n = es@.len();
            let ghost before = out@;
            if let Some(e) = es.pop() {
                let ghost last = e;
                out.push(e.1);
                proof {
                    assert(last == start[n - 1]);
                    assert(es@ =~= start.take(n - 1));
                    assert(all.skip(n - 1).reverse() =~= all.skip(n as int).reverse().push(
                        all[n - 1],
                    ));
                    assert(out@.map_values(|v: V| v@) =~= before.map_values(|v: V| v@).push(
                        last.1@,
                    ));
                }
            }
        }
        let ghost rev = out@;
        assert(all.skip(0) =~= all);
        let mut r: Vec<V> = Vec::new();
        while out.len() > 0
            invariant
                all.len() == rev.len(),
                rev.map_values(|v: V| v@) == all.reverse(),
                out@.len() + r@.len() == rev.len(),
                out@ == rev.take(out@.len() as int),
                r@.map_values(|v: V| v@) == all.take(r@.len() as int),
            decreases out@.len(),
        {
            let ghost n = out@.len();
            let ghost before = r@;
            if let Some(v) = out.pop() {
                let ghost last = v;
                r.push(v);
                proof {
                    assert(last == rev[n - 1]);
                    assert(out@ =~= rev.take(n - 1));
                    assert(rev.map_values(|v: V| v@)[n - 1] == all.reverse()[n - 1]);
                    assert(last@ == all[all.len() - n]);
                    assert(r@.map_values(|v: V| v@) =~= before.map_values(|v: V| v@).push(last@));
                    assert(all.take(before.len() as int).push(all[before.len() as int])
                        =~= all.take(before.len() as int + 1));
                }
            }
        }
        assert(all.take(all.len() as int) =~= all);
        r
    }

    /// The number of keys that come before `k`.
    fn position(&self, k: &K) -> (p: usize)
        ensures
            p <= self.entries@.len(),
            forall|i: int| 0 <= i < p ==> lex_lt(#[trigger] self.keys()[i], k.rank()),
            forall|i: int| p <= i < self.entries@.len() ==> !lex_lt(#[trigger] self.keys()[i], k.rank()),
    {
        proof {
            use_type_invariant(self);
        }
        let mut lo: usize = 0;
        let mut hi: usize = self.entries.len();
        while lo < hi
            invariant
                lo <= hi <= self.entries@.len(),
                increasing(self.keys()),
                forall|i: int| 0 <= i < lo ==> lex_lt(#[trigger] self.keys()[i], k.rank()),
                forall|i: int|
                    hi <= i < self.entries@.len() ==> !lex_lt(#[trigger] self.keys()[i], k.rank()),
            decreases hi - lo,
        {
            let mid: usize = lo + (hi - lo) / 2;
            let before = self.entries[mid].0.precedes(k);
            let ghost ks = self.keys();
            assert(ks[mid as int] == self.entries@[mid as int].0.rank());
            if before {
                assert forall|i: int| 0 <= i < mid + 1 implies lex_lt(
                    #[trigger] self.keys()[i],
                    k.rank(),
                ) by {
                    if i < mid {
                        lemma_lex_transitive(ks[i], ks[mid as int], k.rank());
                    }
                }
                lo = mid + 1;
            } else {
                assert forall|i: int| mid <= i < self.entries@.len() implies !lex_lt(
                    #[trigger] self.keys()[i],
                    k.rank(),
                ) by {
                    if i > mid && lex_lt(ks[i], k.rank()) {
                        lemma_lex_transitive(ks[mid as int], ks[i], k.rank());
                    }
                }
                hi = mid;
            }
        }
        lo
    }

    /// The position of `k`, if it is a key of the map.
    fn find(&self, k: &K) -> (r: Option<usize>)
        ensures
            r is Some <==> self@.contains_key(k.rank()),
            r matches Some(p) ==> p < self.entries@.len() && self.keys()[p as int] == k.rank()
                && self.vals()[p as int] == self@[k.rank()],
    {
        let p: usize = self.position(k);
        proof {
            use_type_invariant(self);
            lemma_increasing_distinct(self.keys());
            if self@.contains_key(k.rank()) {
                let i = self.keys().index_of(k.rank());
                assert(self.keys()[i] == k.rank());
                if i < p {
                    lemma_lex_antisymmetric(self.keys()[i], k.rank());
                }
                if p < i {
                    assert(lex_lt(self.keys()[p as int], self.keys()[i]));
                }
            }
        }
        if p < self.entries.len() && self.entries[p].0.same(k) {
            assert(self.keys()[p as int] == k.rank());
            assert(self.keys().contains(k.rank()));
            Some(p)
        } else {
            None
        }
    }

    /// The value that `k` maps to.
    pub fn get(&self, k: &K) -> (r: Option<&V>)
        ensures
            r is Some <==> self@.contains_key(k.rank()),
            r matches Some(v) ==> v@ == self@[k.rank()],
    {
        match self.find(k) {
            Some(p) => Some(&self.entries[p].1),
            None => None,
        }
    }

    /// Whether `k` is a key of the map.
    pub fn contains(&self, k: &K) -> (r: bool)
        ensures
            r == self@.contains_key(k.rank()),
    {
        self.find(k).is_some()
    }

    /// Maps `k` to `v`, in place of what it mapped to before.
    pub fn insert(&mut self, k: K, v: V)
        ensures
            final(self)@ == old(self)@.insert(k.rank(), v@),
    {
        let p: usize = self.position(&k);
        proof {
            use_type_invariant(&*self);
        }
        let ghost ks = self.keys();
        let ghost vs = self.vals();
        let ghost es = self.entries@;
        let ghost kr = k.rank();
        let ghost vv = v@;
        proof {
            lemma_increasing_distinct(ks);
        }
        if p < self.entries.len() && self.entries[p].0.same(&k) {
            proof {
                let es2 = es.update(p as int, (k, v));
                let ks2 = es2.map_values(|e: (K, V)| e.0.rank());
                assert(ks2 =~= ks);
                let vs2 = es2.map_values(|e: (K, V)| e.1@);
                assert(vs2 =~= vs.update(p as int, vv));
                assert(zip_map(ks2, vs2) =~= zip_map(ks, vs).insert(kr, vv)) by {
                    assert(ks[p as int] == kr);
                    assert(ks.contains(kr));
                }
            }
            let mut es: Vec<(K, V)> = Vec::new();
            std::mem::swap(&mut self.entries, &mut es);
            es[p] = (k, v);
            self.entries = es;
        } else {
            proof {
                let es2 = es.insert(p as int, (k, v));
                let ks2 = es2.map_values(|e: (K, V)| e.0.rank());
                let vs2 = es2.map_values(|e: (K, V)| e.1@);
                assert(ks2 =~= ks.insert(p as int, kr));
                assert(vs2 =~= vs.insert(p as int, vv));
                assert forall|i: int| p <= i < ks.len() implies lex_lt(kr, #[trigger] ks[i]) by {
                    lemma_lex_total(kr, ks[i]);
                    assert(!lex_lt(ks[i], kr));
                    if p < i {
                        assert(lex_lt(ks[p as int], ks[i]));
                    }
                }
                lemma_insert_new(ks, vs, p as int, kr, vv);
            }
            let mut es: Vec<(K, V)> = Vec::new();
            std::mem::swap(&mut self.entries, &mut es);
            es.insert(p, (k, v));
            self.entries = es;
        }
    }

    /// Takes `k` out of the map.
    pub fn remove(&mut self, k: &K)
        ensures
            final(self)@ == old(self)@.remove(k.rank()),
    {
        let _ = self.take(k);
    }
}

impl<K: Key, V: Dup> OrdMap<K, V> {
    /// A copy of the map.
    pub fn dup(&self) -> (r: OrdMap<K, V>)
        ensures
            r@ == self@,
            r.keys() == self.keys(),
            r.vals() == self.vals(),
    {
        let n: usize = self.entries.len();
        let mut es: Vec<(K, V)> = Vec::new();
        let mut i: usize = 0;
        while i < n
            invariant
                i <= n,
                n == self.entries@.len(),
                es@.len() == i,
                forall|j: int|
                    0 <= j < i ==> (#[trigger] es@[j]).0.rank() == self.entries@[j].0.rank() && es@[j].1@
                        == self.entries@[j].1@,
            decreases n - i,
        {
            es.push((self.entries[i].0.copied(), self.entries[i].1.dup()));
            i += 1;
        }
        proof {
            use_type_invariant(self);
            assert(es@.map_values(|e: (K, V)| e.0.rank()) =~= self.keys());
            assert(es@.map_values(|e: (K, V)| e.1@) =~= self.vals());
        }
        OrdMap { entries: es }
    }
}

proof fn lemma_insert_new<W>(ks: Seq<Seq<u8>>, vs: Seq<W>, p: int, k: Seq<u8>, v: W)
    requires
        increasing(ks),
        ks.len() == vs.len(),
        0 <= p <= ks.len(),
        forall|i: int| 0 <= i < p ==> lex_lt(#[trigger] ks[i], k),
        forall|i: int| p <= i < ks.len() ==> lex_lt(k, #[trigger] ks[i]),
    ensures
        increasing(ks.insert(p, k)),
        zip_map(ks.insert(p, k), vs.insert(p, v)) == zip_map(ks, vs).insert(k, v),
{
    let ks2 = ks.insert(p, k);
    let vs2 = vs.insert(p, v);
    assert(increasing(ks2));
    lemma_increasing_distinct(ks);
    lemma_increasing_distinct(ks2);
    let m1 = zip_map(ks2, vs2);
    let m2 = zip_map(ks, vs).insert(k, v);
    assert forall|x: Seq<u8>| m1.contains_key(x) == #[trigger] m2.contains_key(x) by {
        if ks2.contains(x) {
            let i = ks2.index_of(x);
            assert(ks2[i] == x);
            if i < p {
                assert(ks[i] == x);
            } else if i > p {
                assert(ks[i - 1] == x);
            }
        }
        if ks.contains(x) {
            let i = ks.index_of(x);
            if i < p {
                assert(ks2[i] == x);
            } else {
                assert(ks2[i + 1] == x);
            }
        }
        assert(ks2[p] == k);
    }
    assert forall|x: Seq<u8>| #[trigger] m1.contains_key(x) implies m1[x] == m2[x] by {
        let i = ks2.index_of(x);
        assert(ks2[i] == x);
        assert(ks2[p] == k);
        if i < p {
            assert(ks[i] == x);
        } else if i > p {
            assert(ks[i - 1] == x);
        }
    }
    assert(m1 =~= m2);
}

proof fn lemma_remove_present<W>(ks: Seq<Seq<u8>>, vs: Seq<W>, p: int)
    requires
        increasing(ks),
        ks.len() == vs.len(),
        0 <= p < ks.len(),
    ensures
        increasing(ks.remove(p)),
        zip_map(ks.remove(p), vs.remove(p)) == zip_map(ks, vs).remove(ks[p]),
{
    let ks2 = ks.remove(p);
    let vs2 = vs.remove(p);
    assert(increasing(ks2));
    lemma_increasing_distinct(ks);
    lemma_increasing_distinct(ks2);
    let m1 = zip_map(ks2, vs2);
    let m2 = zip_map(ks, vs).remove(ks[p]);
    assert forall|x: Seq<u8>| m1.contains_key(x) == #[trigger] m2.contains_key(x) by {
        if ks2.contains(x) {
            let i = ks2.index_of(x);
            assert(ks2[i] == x);
            if i < p {
                assert(ks[i] == x);
            } else {
                assert(ks[i + 1] == x);
            }
        }
        if ks.contains(x) && x != ks[p] {
            let i = ks.index_of(x);
            if i < p {
                assert(ks2[i] == x);
            } else {
                assert(ks2[i - 1] == x);
            }
        }
    }
    assert forall|x: Seq<u8>| #[trigger] m1.contains_key(x) implies m1[x] == m2[x] by {
        let i = ks2.index_of(x);
        assert(ks2[i] == x);
        if i < p {
            assert(ks[i] == x);
        } else {
            assert(ks[i + 1] == x);
        }
    }
    assert(m1 =~= m2);
}

} // verus!
