//! Sets of L1 validators: their weight and the order in which they are charged.
use vstd::prelude::*;

use crate::codec::{be, push_u64};
use crate::collections::ordmap::{increasing, lemma_increasing_distinct, Dup, Key, OrdMap};
use crate::ids::Id;
use crate::order::{bytes_eq, bytes_lt};
use crate::state::chain::{l1_views, lists_active};
use crate::state::l1_validator::{l1_order_key, lemma_l1_order_key, L1Validator, L1View};

verus! {

/// The weight that those of the first `n` validators add up to that validate
/// `subnet`.
spec fn weight_sum(vs: Seq<L1View>, n: nat, subnet: Seq<u8>) -> nat
    decreases n,
{
    if n == 0 {
        0
    } else {
        let v = vs[n - 1];
        weight_sum(vs, (n - 1) as nat, subnet) + if v.subnet_id == subnet {
            v.weight as nat
        } else {
            0
        }
    }
}

/// Every validator stands under its own id.
pub open spec fn keyed_by_id(m: Map<Seq<u8>, L1View>) -> bool {
    forall|k: Seq<u8>| #[trigger] m.contains_key(k) ==> m[k].validation_id == k
}

proof fn lemma_weight_sum_grows(vs: Seq<L1View>, a: nat, b: nat, subnet: Seq<u8>)
    requires
        a <= b,
    ensures
        weight_sum(vs, a, subnet) <= weight_sum(vs, b, subnet),
    decreases b,
{
    if a < b {
        lemma_weight_sum_grows(vs, a, (b - 1) as nat, subnet);
    }
}

/// The weight that `v` adds to that of `subnet`.
pub open spec fn weight_for(v: L1View, subnet: Seq<u8>) -> nat {
    if v.subnet_id == subnet {
        v.weight as nat
    } else {
        0
    }
}

/// The weight that the validators of `subnet` in `m` add up to.
pub open spec fn subnet_weight(m: Map<Seq<u8>, L1View>, subnet: Seq<u8>) -> nat
    decreases m.dom().len(),
{
    if m.dom().finite() && m.dom().len() > 0 {
        let k = m.dom().choose();
        weight_for(m[k], subnet) + subnet_weight(m.remove(k), subnet)
    } else {
        0
    }
}

/// Each validator adds its weight once.
pub proof fn lemma_subnet_weight_remove(m: Map<Seq<u8>, L1View>, k: Seq<u8>, subnet: Seq<u8>)
    requires
        m.dom().finite(),
        m.contains_key(k),
    ensures
        subnet_weight(m, subnet) == weight_for(m[k], subnet) + subnet_weight(m.remove(k), subnet),
    decreases m.dom().len(),
{
    let c = m.dom().choose();
    assert(m.dom().contains(k));
    assert(m.dom().len() > 0);
    assert(m.dom().contains(c));
    assert(m.remove(c).dom() =~= m.dom().remove(c));
    assert(m.remove(k).dom() =~= m.dom().remove(k));
    if c != k {
        lemma_subnet_weight_remove(m.remove(c), k, subnet);
        lemma_subnet_weight_remove(m.remove(k), c, subnet);
        assert(m.remove(c).remove(k) =~= m.remove(k).remove(c));
    }
}

/// A validator that replaces another is counted once, with its own weight.
pub proof fn a_replaced_validator_counts_once(
    m: Map<Seq<u8>, L1View>,
    k: Seq<u8>,
    v: L1View,
    subnet: Seq<u8>,
)
    requires
        m.dom().finite(),
    ensures
        subnet_weight(m.insert(k, v), subnet) == weight_for(v, subnet) + subnet_weight(
            m.remove(k),
            subnet,
        ),
        m.contains_key(k) ==> subnet_weight(m.insert(k, v), subnet) == subnet_weight(m, subnet)
            - weight_for(m[k], subnet) + weight_for(v, subnet),
        !m.contains_key(k) ==> subnet_weight(m.insert(k, v), subnet) == subnet_weight(m, subnet)
            + weight_for(v, subnet),
{
    let n = m.insert(k, v);
    lemma_subnet_weight_remove(n, k, subnet);
    assert(n.remove(k) =~= m.remove(k));
    if m.contains_key(k) {
        lemma_subnet_weight_remove(m, k, subnet);
    } else {
        assert(m.remove(k) =~= m);
    }
}

/// Where `k` is the only validator of `subnet`, the weight of `subnet` is its
/// weight.
pub proof fn a_single_validator_is_the_weight(
    m: Map<Seq<u8>, L1View>,
    k: Seq<u8>,
    subnet: Seq<u8>,
)
    requires
        m.dom().finite(),
        m.contains_key(k),
        forall|j: Seq<u8>| #[trigger]
            m.contains_key(j) && j != k ==> m[j].subnet_id != subnet,
    ensures
        subnet_weight(m, subnet) == weight_for(m[k], subnet),
{
    lemma_subnet_weight_remove(m, k, subnet);
    lemma_no_validators_no_weight(m.remove(k), subnet);
}

proof fn lemma_no_validators_no_weight(m: Map<Seq<u8>, L1View>, subnet: Seq<u8>)
    requires
        m.dom().finite(),
        forall|j: Seq<u8>| #[trigger] m.contains_key(j) ==> m[j].subnet_id != subnet,
    ensures
        subnet_weight(m, subnet) == 0,
    decreases m.dom().len(),
{
    if m.dom().len() > 0 {
        let k = m.dom().choose();
        assert(m.dom().contains(k));
        assert(m.contains_key(k));
        assert(m.remove(k).dom() =~= m.dom().remove(k));
        lemma_no_validators_no_weight(m.remove(k), subnet);
    }
}

/// The first `n` keys with their values.
spec fn part(ks: Seq<Seq<u8>>, m: Map<Seq<u8>, L1View>, n: int) -> Map<Seq<u8>, L1View> {
    Map::new(|k: Seq<u8>| ks.take(n).contains(k), |k: Seq<u8>| m[k])
}

proof fn lemma_weight_sum_is_subnet_weight(
    ks: Seq<Seq<u8>>,
    vs: Seq<L1View>,
    m: Map<Seq<u8>, L1View>,
    n: nat,
    subnet: Seq<u8>,
)
    requires
        increasing(ks),
        ks.len() == vs.len(),
        n <= ks.len(),
        forall|i: int| 0 <= i < ks.len() ==> m[#[trigger] ks[i]] == vs[i],
    ensures
        part(ks, m, n as int).dom().finite(),
        weight_sum(vs, n, subnet) == subnet_weight(part(ks, m, n as int), subnet),
    decreases n,
{
    let p = part(ks, m, n as int);
    assert(p.dom() =~= ks.take(n as int).to_set());
    vstd::seq_lib::seq_to_set_is_finite(ks.take(n as int));
    if n == 0 {
        assert(p.dom() =~= Set::empty());
    } else {
        let k = ks[n - 1];
        lemma_weight_sum_is_subnet_weight(ks, vs, m, (n - 1) as nat, subnet);
        lemma_increasing_distinct(ks);
        assert(ks.take(n as int)[n - 1] == k);
        assert(p.contains_key(k));
        lemma_subnet_weight_remove(p, k, subnet);
        let q = part(ks, m, n - 1);
        assert forall|x: Seq<u8>| p.remove(k).contains_key(x) <==> #[trigger] q.contains_key(
            x,
        ) by {
            if p.remove(k).contains_key(x) {
                let i = ks.take(n as int).index_of(x);
                assert(ks.take(n - 1)[i] == x);
            }
            if q.contains_key(x) {
                let i = ks.take(n - 1).index_of(x);
                assert(ks.take(n as int)[i] == x);
                assert(ks[i] == x);
            }
        }
        assert(p.remove(k) =~= q);
    }
}

/// `start` and the weights of the validators of `subnet`, if the sum fits.
pub fn add_weights(set: &OrdMap<Id, L1Validator>, subnet: &Id, start: u64) -> (r: Option<u64>)
    ensures
        set@.dom().finite(),
        r is Some <==> start + subnet_weight(set@, subnet@) <= u64::MAX,
        r matches Some(w) ==> w == start + subnet_weight(set@, subnet@),
{
    let n: usize = set.len();
    proof {
        let ks = set.keys();
        lemma_weight_sum_is_subnet_weight(ks, set.vals(), set@, n as nat, subnet@);
        assert(ks.take(n as int) =~= ks);
        assert forall|k: Seq<u8>| #[trigger] set@.contains_key(k) <==> ks.contains(k) by {
            if ks.contains(k) {
                assert(set@.contains_key(ks[ks.index_of(k)]));
            }
        }
        assert(part(ks, set@, n as int) =~= set@);
    }
    let mut total: u64 = start;
    let mut i: usize = 0;
    while i < n
        invariant
            i <= n,
            n == set.keys().len(),
            n == set.vals().len(),
            total == start + weight_sum(set.vals(), i as nat, subnet@),
            weight_sum(set.vals(), n as nat, subnet@) == subnet_weight(set@, subnet@),
        decreases n - i,
    {
        let v = set.val_at(i);
        if v.subnet_id.same(subnet) {
            match total.checked_add(v.weight) {
                Some(t) => {
                    total = t;
                },
                None => {
                    proof {
                        lemma_weight_sum_grows(set.vals(), (i + 1) as nat, n as nat, subnet@);
                    }
                    return None;
                },
            }
        }
        i += 1;
    }
    Some(total)
}

/// An L1 validator's place in the order in which validators are charged.
struct ChargeKey {
    fee: u64,
    id: Id,
}

impl ChargeKey {
    fn bytes(&self) -> (r: Vec<u8>)
        ensures
            r@ == self.rank(),
    {
        let mut out: Vec<u8> = Vec::new();
        push_u64(&mut out, self.fee);
        out.extend_from_slice(self.id.as_bytes());
        assert(out@ =~= self.rank());
        out
    }
}

impl Key for ChargeKey {
    closed spec fn rank(&self) -> Seq<u8> {
        be(self.fee as nat, 8) + self.id@
    }

    fn precedes(&self, other: &ChargeKey) -> (r: bool) {
        let a = self.bytes();
        let b = other.bytes();
        bytes_lt(a.as_slice(), b.as_slice())
    }

    fn same(&self, other: &ChargeKey) -> (r: bool) {
        let a = self.bytes();
        let b = other.bytes();
        bytes_eq(a.as_slice(), b.as_slice())
    }

    fn copied(&self) -> (r: ChargeKey) {
        ChargeKey { fee: self.fee, id: self.id }
    }
}

/// The active validators of `set`, in the order in which they are charged.
pub fn sorted_active(set: &OrdMap<Id, L1Validator>) -> (r: Vec<L1Validator>)
    requires
        keyed_by_id(set@),
    ensures
        lists_active(set@, l1_views(r@)),
{
    let n: usize = set.len();
    let ghost vs = set.vals();
    let ghost ks = set.keys();
    let mut sorted: OrdMap<ChargeKey, L1Validator> = OrdMap::new();
    let mut i: usize = 0;
    while i < n
        invariant
            i <= n,
            n == ks.len(),
            n == vs.len(),
            ks == set.keys(),
            vs == set.vals(),
            keyed_by_id(set@),
            forall|j: int|
                0 <= j < n ==> set@.contains_key(#[trigger] ks[j]) && set@[ks[j]] == vs[j],
            forall|k: Seq<u8>| #[trigger]
                sorted@.contains_key(k) ==> k == l1_order_key(sorted@[k]) && sorted@[k].active()
                    && set@.contains_key(sorted@[k].validation_id)
                    && set@[sorted@[k].validation_id] == sorted@[k],
            forall|j: int|
                0 <= j < i && (#[trigger] vs[j]).active() ==> sorted@.contains_key(
                    l1_order_key(vs[j]),
                ),
        decreases n - i,
    {
        let v = set.val_at(i);
        assert(set@.contains_key(ks[i as int]));
        if v.is_active() {
            let key = ChargeKey { fee: v.end_accumulated_fee, id: v.validation_id };
            sorted.insert(key, v.dup());
        }
        i += 1;
    }
    let m: usize = sorted.len();
    let ghost sk = sorted.keys();
    let ghost sv = sorted.vals();
    let ghost sm = sorted@;
    let r = sorted.into_vals();
    proof {
        let list = l1_views(r@);
        assert(list == sv);
        assert forall|j: int| 0 <= j < sv.len() implies l1_order_key(#[trigger] sv[j]) == sk[j] by {
            assert(sm.contains_key(sk[j]));
        }
        assert(list.map_values(|v: L1View| l1_order_key(v)) =~= sk);
        assert forall|j: int| 0 <= j < list.len() implies set@.contains_key(
            (#[trigger] list[j]).validation_id,
        ) && set@[list[j].validation_id] == list[j] && list[j].active() by {
            assert(sm.contains_key(sk[j]));
        }
        assert forall|k: Seq<u8>| #[trigger]
            set@.contains_key(k) && set@[k].active() implies exists|j: int|
            0 <= j < list.len() && #[trigger] list[j] == set@[k] by {
            let q = ks.index_of(k);
            assert(vs[q] == set@[k]);
            let ok = l1_order_key(vs[q]);
            assert(sm.contains_key(ok));
            let j = sk.index_of(ok);
            assert(sk[j] == ok);
            lemma_l1_order_key(sv[j], vs[q]);
            assert(sv[j].validation_id == vs[q].validation_id);
            assert(list[j] == set@[k]);
        }
    }
    r
}

} // verus!
