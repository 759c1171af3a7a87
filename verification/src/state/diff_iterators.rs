//! Stored changes of the validator sets, and their undoing.
//!
//! The set at an earlier height is found by starting from the current one and
//! undoing the stored changes, the newest first.
use vstd::prelude::*;
use vstd::slice::slice_subrange;

use crate::codec::{be, be_value, lemma_be_be_value, lemma_be_len, lemma_be_ordered, lemma_be_value_be, lemma_be_value_bound, lemma_pow256};
use crate::collections::ordmap::{increasing, zip_map, Dup, Key, OrdMap};
use crate::error::{Error, Result};
use crate::ids::{Id, NodeId};
use crate::order::{bytes_copy, bytes_eq, lemma_lex_antisymmetric, lemma_lex_leading_block, lemma_lex_shared_prefix, lemma_lex_transitive, lemma_prefix_is_convex, lex_lt, splits_at};
use crate::state::chain::blob_bytes;
use crate::state::disk_staker_diff_iterator::{height_diff_key, height_diff_keys_are_distinct, inverted, marshal_diff_key_by_height, marshal_diff_key_by_subnet_id, marshal_start_diff_key_by_height, marshal_start_diff_key_by_subnet_id, marshal_weight_diff, subnet_diff_key, subnet_diff_keys_are_distinct, unmarshal_diff_key_by_height, unmarshal_diff_key_by_subnet_id, unmarshal_weight_diff, weight_diff_bytes, weight_diff_round_trip, ValidatorWeightDiff, DIFF_KEY_LEN, WEIGHT_VALUE_LEN};

verus! {

/// A validator of a set that is being rebuilt.
#[derive(Debug, PartialEq, Eq)]
pub struct DiffValidator {
    /// The node's weight.
    pub weight: u64,
    /// The node's BLS key in uncompressed form, where it has one.
    pub public_key: Option<Vec<u8>>,
}

/// What a [`DiffValidator`] holds.
#[verifier::ext_equal]
pub struct DiffValidatorView {
    /// The node's weight.
    pub weight: u64,
    /// The node's BLS key.
    pub public_key: Option<Seq<u8>>,
}

impl View for DiffValidator {
    type V = DiffValidatorView;

    open spec fn view(&self) -> DiffValidatorView {
        DiffValidatorView {
            weight: self.weight,
            public_key: match self.public_key {
                Some(k) => Some(k@),
                None => None,
            },
        }
    }
}

impl Dup for DiffValidator {
    fn dup(&self) -> (r: DiffValidator) {
        let public_key = match &self.public_key {
            Some(k) => Some(bytes_copy(k.as_slice())),
            None => None,
        };
        DiffValidator { weight: self.weight, public_key }
    }
}

/// The validators of one subnet, by node.
pub type ValidatorSet = OrdMap<NodeId, DiffValidator>;

/// What a [`ValidatorSet`] holds.
pub type SetView = Map<Seq<u8>, DiffValidatorView>;

/// A validator of which nothing is known.
pub open spec fn no_validator() -> DiffValidatorView {
    DiffValidatorView { weight: 0, public_key: None }
}

/// What the set holds of `node`.
pub open spec fn entry_of(set: SetView, node: Seq<u8>) -> DiffValidatorView {
    if set.contains_key(node) {
        set[node]
    } else {
        no_validator()
    }
}

/// The weight before the change `d`, where the weight after it is `w`.
pub open spec fn weight_before(w: u64, d: ValidatorWeightDiff) -> int {
    if d.decrease {
        w + d.amount
    } else {
        w - d.amount
    }
}

/// Undoes the change `d` of the weight of `node`. A node left without weight
/// leaves the set. Where the weight would leave the range of a `u64`, the
/// undoing fails, and the node is in the set as it was or with no weight.
pub open spec fn undo_weight(set: SetView, node: Seq<u8>, d: ValidatorWeightDiff) -> (
    SetView,
    bool,
) {
    let entry = entry_of(set, node);
    let w = weight_before(entry.weight, d);
    if w < 0 || w > u64::MAX {
        (set.insert(node, entry), false)
    } else if w == 0 {
        (set.remove(node), true)
    } else {
        (set.insert(node, DiffValidatorView { weight: w as u64, ..entry }), true)
    }
}

/// Puts back the key that `node` had before a change: `previous`, or none
/// where that is empty. A node that is not in the set is passed over.
pub open spec fn undo_public_key(set: SetView, node: Seq<u8>, previous: Seq<u8>) -> SetView {
    if set.contains_key(node) {
        set.insert(
            node,
            DiffValidatorView {
                public_key: if previous.len() == 0 {
                    None
                } else {
                    Some(previous)
                },
                ..set[node]
            },
        )
    } else {
        set
    }
}

/// The height that a key of the index by subnet holds.
pub open spec fn subnet_key_height(k: Seq<u8>) -> u64 {
    inverted(be_value(k.subrange(32, 40)) as u64)
}

/// The height that a key of the index by height holds.
pub open spec fn height_key_height(k: Seq<u8>) -> u64 {
    inverted(be_value(k.take(8)) as u64)
}

/// The node that a key of either index holds.
pub open spec fn key_node(k: Seq<u8>) -> Seq<u8> {
    k.skip(40)
}

/// The subnet that a key of the index by height holds.
pub open spec fn height_key_subnet(k: Seq<u8>) -> Seq<u8> {
    k.subrange(8, 40)
}

/// Whether the key `k` is one of `subnet` with a height from `to` to `from`.
pub open spec fn in_subnet_window(k: Seq<u8>, subnet: Seq<u8>, from: u64, to: u64) -> bool {
    k.take(32) == subnet && to <= subnet_key_height(k) <= from
}

/// Whether the key `k` has a height from `to` to `from`.
pub open spec fn in_height_window(k: Seq<u8>, from: u64, to: u64) -> bool {
    to <= height_key_height(k) <= from
}

/// The weight change that a stored value holds.
pub open spec fn stored_diff(v: Seq<u8>) -> ValidatorWeightDiff {
    ValidatorWeightDiff { decrease: v[0] != 0, amount: be_value(v.skip(1)) as u64 }
}

/// Undoes the first `n` stored changes of `subnet` with a height from `to` to
/// `from`, in the order of the index, until one cannot be undone.
pub open spec fn undo_weights(
    ks: Seq<Seq<u8>>,
    vs: Seq<Seq<u8>>,
    n: nat,
    set: SetView,
    subnet: Seq<u8>,
    from: u64,
    to: u64,
) -> (SetView, bool)
    decreases n,
{
    if n == 0 {
        (set, true)
    } else {
        let i = (n - 1) as nat;
        let (m, ok) = undo_weights(ks, vs, i, set, subnet, from, to);
        if ok && in_subnet_window(ks[i as int], subnet, from, to) {
            undo_weight(m, key_node(ks[i as int]), stored_diff(vs[i as int]))
        } else {
            (m, ok)
        }
    }
}

/// Puts back the keys of the first `n` stored changes of `subnet` with a
/// height from `to` to `from`, in the order of the index.
pub open spec fn undo_public_keys(
    ks: Seq<Seq<u8>>,
    vs: Seq<Seq<u8>>,
    n: nat,
    set: SetView,
    subnet: Seq<u8>,
    from: u64,
    to: u64,
) -> SetView
    decreases n,
{
    if n == 0 {
        set
    } else {
        let i = (n - 1) as nat;
        let m = undo_public_keys(ks, vs, i, set, subnet, from, to);
        if in_subnet_window(ks[i as int], subnet, from, to) {
            undo_public_key(m, key_node(ks[i as int]), vs[i as int])
        } else {
            m
        }
    }
}

/// The validators of all subnets.
pub type AllSets = OrdMap<Id, ValidatorSet>;

/// What [`AllSets`] holds.
pub type AllView = Map<Seq<u8>, SetView>;

/// The set of `subnet`, which has no validators where it is not there.
pub open spec fn set_of(all: AllView, subnet: Seq<u8>) -> SetView {
    if all.contains_key(subnet) {
        all[subnet]
    } else {
        Map::empty()
    }
}

/// Undoes a change of a weight in the set of its subnet. A set left without
/// validators is dropped.
pub open spec fn undo_weight_in(
    all: AllView,
    subnet: Seq<u8>,
    node: Seq<u8>,
    d: ValidatorWeightDiff,
) -> (AllView, bool) {
    let (set, ok) = undo_weight(set_of(all, subnet), node, d);
    if ok && set == Map::<Seq<u8>, DiffValidatorView>::empty() {
        (all.remove(subnet), true)
    } else {
        (all.insert(subnet, set), ok)
    }
}

/// Puts back a key in the set of its subnet.
pub open spec fn undo_public_key_in(
    all: AllView,
    subnet: Seq<u8>,
    node: Seq<u8>,
    previous: Seq<u8>,
) -> AllView {
    if all.contains_key(subnet) {
        all.insert(subnet, undo_public_key(all[subnet], node, previous))
    } else {
        all
    }
}

/// Undoes the first `n` stored changes with a height from `to` to `from`, in
/// the order of the index, until one cannot be undone.
pub open spec fn undo_all_weights(
    ks: Seq<Seq<u8>>,
    vs: Seq<Seq<u8>>,
    n: nat,
    all: AllView,
    from: u64,
    to: u64,
) -> (AllView, bool)
    decreases n,
{
    if n == 0 {
        (all, true)
    } else {
        let i = (n - 1) as nat;
        let (m, ok) = undo_all_weights(ks, vs, i, all, from, to);
        let k = ks[i as int];
        if ok && in_height_window(k, from, to) {
            undo_weight_in(m, height_key_subnet(k), key_node(k), stored_diff(vs[i as int]))
        } else {
            (m, ok)
        }
    }
}

/// Puts back the keys of the first `n` stored changes with a height from `to`
/// to `from`, in the order of the index.
pub open spec fn undo_all_public_keys(
    ks: Seq<Seq<u8>>,
    vs: Seq<Seq<u8>>,
    n: nat,
    all: AllView,
    from: u64,
    to: u64,
) -> AllView
    decreases n,
{
    if n == 0 {
        all
    } else {
        let i = (n - 1) as nat;
        let m = undo_all_public_keys(ks, vs, i, all, from, to);
        let k = ks[i as int];
        if in_height_window(k, from, to) {
            undo_public_key_in(m, height_key_subnet(k), key_node(k), vs[i as int])
        } else {
            m
        }
    }
}

/// `ks` are the keys of `m` in order, and `vs` is what they map to. Every key has
/// the length of a key of stored changes.
pub open spec fn lists(ks: Seq<Seq<u8>>, vs: Seq<Seq<u8>>, m: Map<Seq<u8>, Seq<u8>>) -> bool {
    &&& ks.len() == vs.len()
    &&& increasing(ks)
    &&& forall|j: int| 0 <= j < ks.len() ==> (#[trigger] ks[j]).len() == DIFF_KEY_LEN
    &&& zip_map(ks, vs) == m
}

/// The same change in the two indexes.
pub open spec fn indexes_agree(
    by_subnet: Map<Seq<u8>, Seq<u8>>,
    by_height: Map<Seq<u8>, Seq<u8>>,
) -> bool {
    &&& forall|k: Seq<u8>| #[trigger] by_subnet.contains_key(k) ==> k.len() == DIFF_KEY_LEN
    &&& forall|k: Seq<u8>| #[trigger] by_height.contains_key(k) ==> k.len() == DIFF_KEY_LEN
    &&& forall|s: Seq<u8>, h: u64, n: Seq<u8>|
        #![trigger subnet_diff_key(s, h, n)]
        #![trigger height_diff_key(h, s, n)]
        s.len() == 32 && n.len() == 20 ==> {
            &&& by_subnet.contains_key(subnet_diff_key(s, h, n)) <==> by_height.contains_key(
                height_diff_key(h, s, n),
            )
            &&& by_subnet.contains_key(subnet_diff_key(s, h, n)) ==> by_subnet[subnet_diff_key(
                s,
                h,
                n,
            )] == by_height[height_diff_key(h, s, n)]
        }
}

proof fn lemma_indexes_agree_put(
    by_subnet: Map<Seq<u8>, Seq<u8>>,
    by_height: Map<Seq<u8>, Seq<u8>>,
    s: Seq<u8>,
    h: u64,
    n: Seq<u8>,
    v: Seq<u8>,
)
    requires
        indexes_agree(by_subnet, by_height),
        s.len() == 32,
        n.len() == 20,
    ensures
        indexes_agree(
            by_subnet.insert(subnet_diff_key(s, h, n), v),
            by_height.insert(height_diff_key(h, s, n), v),
        ),
{
    lemma_be_len(inverted(h) as nat, 8);
    let a = by_subnet.insert(subnet_diff_key(s, h, n), v);
    let b = by_height.insert(height_diff_key(h, s, n), v);
    assert forall|s1: Seq<u8>, h1: u64, n1: Seq<u8>|
        #![trigger subnet_diff_key(s1, h1, n1)]
        #![trigger height_diff_key(h1, s1, n1)]
        s1.len() == 32 && n1.len() == 20 implies {
        &&& a.contains_key(subnet_diff_key(s1, h1, n1)) <==> b.contains_key(
            height_diff_key(h1, s1, n1),
        )
        &&& a.contains_key(subnet_diff_key(s1, h1, n1)) ==> a[subnet_diff_key(s1, h1, n1)]
            == b[height_diff_key(h1, s1, n1)]
    } by {
        subnet_diff_keys_are_distinct(s, h, n, s1, h1, n1);
        height_diff_keys_are_distinct(h, s, n, h1, s1, n1);
    }
}

/// The stored changes of weights, in an index by subnet and one by height.
pub struct WeightDiffStore {
    by_subnet: OrdMap<Vec<u8>, Vec<u8>>,
    by_height: OrdMap<Vec<u8>, Vec<u8>>,
}

/// The stored changes of keys, in an index by subnet and one by height. A
/// value is the key from before the change, empty where there was none.
pub struct PublicKeyDiffStore {
    by_subnet: OrdMap<Vec<u8>, Vec<u8>>,
    by_height: OrdMap<Vec<u8>, Vec<u8>>,
}

impl View for WeightDiffStore {
    type V = Map<Seq<u8>, Seq<u8>>;

    closed spec fn view(&self) -> Map<Seq<u8>, Seq<u8>> {
        self.by_subnet@
    }
}

impl View for PublicKeyDiffStore {
    type V = Map<Seq<u8>, Seq<u8>>;

    closed spec fn view(&self) -> Map<Seq<u8>, Seq<u8>> {
        self.by_subnet@
    }
}

impl WeightDiffStore {
    /// The keys of the index by subnet, in order.
    pub closed spec fn subnet_keys(&self) -> Seq<Seq<u8>> {
        self.by_subnet.keys()
    }

    /// The values of the index by subnet, in the order of the keys.
    pub closed spec fn subnet_vals(&self) -> Seq<Seq<u8>> {
        self.by_subnet.vals()
    }

    /// The keys of the index by height, in order.
    pub closed spec fn height_keys(&self) -> Seq<Seq<u8>> {
        self.by_height.keys()
    }

    /// The values of the index by height, in the order of the keys.
    pub closed spec fn height_vals(&self) -> Seq<Seq<u8>> {
        self.by_height.vals()
    }

    /// The two indexes hold the same changes, and every value is one.
    pub closed spec fn wf(&self) -> bool {
        &&& indexes_agree(self.by_subnet@, self.by_height@)
        &&& forall|k: Seq<u8>| #[trigger]
            self.by_subnet@.contains_key(k) ==> self.by_subnet@[k].len() == WEIGHT_VALUE_LEN
        &&& forall|k: Seq<u8>| #[trigger]
            self.by_height@.contains_key(k) ==> self.by_height@[k].len() == WEIGHT_VALUE_LEN
    }

    /// An empty store.
    pub fn new() -> (r: WeightDiffStore)
        ensures
            r.wf(),
            r@ == Map::<Seq<u8>, Seq<u8>>::empty(),
    {
        WeightDiffStore { by_subnet: OrdMap::new(), by_height: OrdMap::new() }
    }

    /// Stores the change `diff` of the weight of `node` at `height`. A change
    /// by nothing is not stored.
    pub fn put(&mut self, subnet: Id, node: NodeId, height: u64, diff: &ValidatorWeightDiff)
        requires
            old(self).wf(),
        ensures
            final(self).wf(),
            final(self)@ == if diff.amount == 0 {
                old(self)@
            } else {
                old(self)@.insert(
                    subnet_diff_key(subnet@, height, node@),
                    weight_diff_bytes(*diff),
                )
            },
    {
        if diff.amount == 0 {
            return;
        }
        proof {
            lemma_indexes_agree_put(
                self.by_subnet@,
                self.by_height@,
                subnet@,
                height,
                node@,
                weight_diff_bytes(*diff),
            );
        }
        self.by_subnet.insert(
            marshal_diff_key_by_subnet_id(subnet, height, node),
            marshal_weight_diff(diff),
        );
        self.by_height.insert(
            marshal_diff_key_by_height(height, subnet, node),
            marshal_weight_diff(diff),
        );
    }

    /// A store of its own that holds the same changes.
    pub fn copy(&self) -> (r: WeightDiffStore)
        requires
            self.wf(),
        ensures
            r.wf(),
            r@ == self@,
    {
        WeightDiffStore { by_subnet: self.by_subnet.dup(), by_height: self.by_height.dup() }
    }
}

impl PublicKeyDiffStore {
    /// The keys of the index by subnet, in order.
    pub closed spec fn subnet_keys(&self) -> Seq<Seq<u8>> {
        self.by_subnet.keys()
    }

    /// The values of the index by subnet, in the order of the keys.
    pub closed spec fn subnet_vals(&self) -> Seq<Seq<u8>> {
        self.by_subnet.vals()
    }

    /// The keys of the index by height, in order.
    pub closed spec fn height_keys(&self) -> Seq<Seq<u8>> {
        self.by_height.keys()
    }

    /// The values of the index by height, in the order of the keys.
    pub closed spec fn height_vals(&self) -> Seq<Seq<u8>> {
        self.by_height.vals()
    }

    /// The two indexes hold the same changes.
    pub closed spec fn wf(&self) -> bool {
        indexes_agree(self.by_subnet@, self.by_height@)
    }

    /// An empty store.
    pub fn new() -> (r: PublicKeyDiffStore)
        ensures
            r.wf(),
            r@ == Map::<Seq<u8>, Seq<u8>>::empty(),
    {
        PublicKeyDiffStore { by_subnet: OrdMap::new(), by_height: OrdMap::new() }
    }

    /// Stores that `node` had the key `prev_public_key` before `height`.
    pub fn put(&mut self, subnet: Id, node: NodeId, height: u64, prev_public_key: &[u8])
        requires
            old(self).wf(),
        ensures
            final(self).wf(),
            final(self)@ == old(self)@.insert(
                subnet_diff_key(subnet@, height, node@),
                prev_public_key@,
            ),
    {
        proof {
            lemma_indexes_agree_put(
                self.by_subnet@,
                self.by_height@,
                subnet@,
                height,
                node@,
                prev_public_key@,
            );
        }
        self.by_subnet.insert(
            marshal_diff_key_by_subnet_id(subnet, height, node),
            bytes_copy(prev_public_key),
        );
        self.by_height.insert(
            marshal_diff_key_by_height(height, subnet, node),
            bytes_copy(prev_public_key),
        );
    }

    /// A store of its own that holds the same changes.
    pub fn copy(&self) -> (r: PublicKeyDiffStore)
        requires
            self.wf(),
        ensures
            r.wf(),
            r@ == self@,
    {
        PublicKeyDiffStore { by_subnet: self.by_subnet.dup(), by_height: self.by_height.dup() }
    }
}

/// Undoes one change of a weight.
fn apply_weight_diff(set: &mut ValidatorSet, node: NodeId, diff: &ValidatorWeightDiff) -> (r: Result<
    (),
>)
    ensures
        (final(set)@, r is Ok) == undo_weight(old(set)@, node@, *diff),
        r matches Err(e) ==> e == Error::Overflow,
{
    let entry = match set.take(&node) {
        Some(v) => v,
        None => DiffValidator { weight: 0, public_key: None },
    };
    let ghost e = entry@;
    let new_weight: Option<u64> = if diff.decrease {
        entry.weight.checked_add(diff.amount)
    } else {
        entry.weight.checked_sub(diff.amount)
    };
    match new_weight {
        None => {
            set.insert(node, entry);
            assert(set@ =~= old(set)@.insert(node@, e));
            Err(Error::Overflow)
        },
        Some(w) => {
            if w != 0 {
                let v = DiffValidator { weight: w, public_key: entry.public_key };
                set.insert(node, v);
                assert(set@ =~= old(set)@.insert(node@, DiffValidatorView { weight: w, ..e }));
            }
            Ok(())
        },
    }
}

/// Puts back one key.
fn apply_public_key_diff(set: &mut ValidatorSet, node: NodeId, value: &[u8])
    ensures
        final(set)@ == undo_public_key(old(set)@, node@, value@),
{
    if let Some(entry) = set.take(&node) {
        let public_key = if value.len() == 0 {
            None
        } else {
            Some(bytes_copy(value))
        };
        let v = DiffValidator { weight: entry.weight, public_key };
        set.insert(node, v);
    }
    assert(set@ =~= undo_public_key(old(set)@, node@, value@));
}

pub(crate) proof fn lemma_subnet_key_parts(k: Seq<u8>, s: Seq<u8>, h: u64, n: Seq<u8>)
    requires
        k == subnet_diff_key(s, h, n),
        s.len() == 32,
    ensures
        k.take(32) == s,
        subnet_key_height(k) == h,
        key_node(k) == n,
{
    lemma_be_len(inverted(h) as nat, 8);
    lemma_pow256();
    lemma_be_value_be(inverted(h) as nat, 8);
    assert(k.take(32) =~= s);
    assert(k.subrange(32, 40) =~= be(inverted(h) as nat, 8));
    assert(k.skip(40) =~= n);
}

proof fn lemma_height_key_parts(k: Seq<u8>, s: Seq<u8>, h: u64, n: Seq<u8>)
    requires
        k == height_diff_key(h, s, n),
        s.len() == 32,
    ensures
        height_key_subnet(k) == s,
        height_key_height(k) == h,
        key_node(k) == n,
{
    lemma_be_len(inverted(h) as nat, 8);
    lemma_pow256();
    lemma_be_value_be(inverted(h) as nat, 8);
    assert(k.subrange(8, 40) =~= s);
    assert(k.take(8) =~= be(inverted(h) as nat, 8));
    assert(k.skip(40) =~= n);
}

/// Keys that come before the start of the scan are newer than `from`.
proof fn lemma_before_subnet_start(k: Seq<u8>, subnet: Seq<u8>, from: u64)
    requires
        k.len() == 60,
        subnet.len() == 32,
        k.take(32) == subnet,
    ensures
        lex_lt(k, subnet + be(inverted(from) as nat, 8)) <==> subnet_key_height(k) > from,
{
    let hb = k.subrange(32, 40);
    let node = k.skip(40);
    lemma_be_be_value(hb);
    lemma_be_value_bound(hb);
    lemma_pow256();
    let inv = be_value(hb);
    let sb = be(inverted(from) as nat, 8);
    lemma_be_len(inverted(from) as nat, 8);
    let e = Seq::<u8>::empty();
    assert(k =~= subnet + (hb + node));
    assert(sb + e =~= sb);
    lemma_lex_shared_prefix(subnet, hb + node, sb);
    if inv < inverted(from) {
        lemma_be_ordered(inv, inverted(from) as nat, 8);
        lemma_lex_leading_block(hb, sb, node, e);
    } else if inv > inverted(from) {
        lemma_be_ordered(inverted(from) as nat, inv, 8);
        lemma_lex_leading_block(sb, hb, e, node);
        lemma_lex_antisymmetric(sb, hb + node);
    } else {
        if lex_lt(hb + node, sb) {
            let i = choose|i: int| splits_at(hb + node, sb, i);
            assert((hb + node)[i] == sb[i]);
        }
    }
}

proof fn lemma_before_height_start(k: Seq<u8>, from: u64)
    requires
        k.len() == 60,
    ensures
        lex_lt(k, be(inverted(from) as nat, 8)) <==> height_key_height(k) > from,
{
    let hb = k.take(8);
    let tail = k.skip(8);
    lemma_be_be_value(hb);
    lemma_be_value_bound(hb);
    lemma_pow256();
    let inv = be_value(hb);
    let sb = be(inverted(from) as nat, 8);
    lemma_be_len(inverted(from) as nat, 8);
    let e = Seq::<u8>::empty();
    assert(k =~= hb + tail);
    assert(sb + e =~= sb);
    if inv < inverted(from) {
        lemma_be_ordered(inv, inverted(from) as nat, 8);
        lemma_lex_leading_block(hb, sb, tail, e);
    } else if inv > inverted(from) {
        lemma_be_ordered(inverted(from) as nat, inv, 8);
        lemma_lex_leading_block(sb, hb, e, tail);
        lemma_lex_antisymmetric(sb, hb + tail);
    } else {
        if lex_lt(hb + tail, sb) {
            let i = choose|i: int| splits_at(hb + tail, sb, i);
            assert((hb + tail)[i] == sb[i]);
        }
    }
}

/// Of two keys of one subnet, the first in order is not older.
pub(crate) proof fn lemma_subnet_keys_in_order(a: Seq<u8>, b: Seq<u8>)
    requires
        a.len() == 60,
        b.len() == 60,
        a.take(32) == b.take(32),
        lex_lt(a, b),
    ensures
        subnet_key_height(a) >= subnet_key_height(b),
{
    let s = a.take(32);
    if subnet_key_height(a) < subnet_key_height(b) {
        let h = subnet_key_height(a);
        lemma_before_subnet_start(a, s, h);
        lemma_before_subnet_start(b, s, h);
        lemma_lex_transitive(a, b, s + be(inverted(h) as nat, 8));
    }
}

proof fn lemma_height_keys_in_order(a: Seq<u8>, b: Seq<u8>)
    requires
        a.len() == 60,
        b.len() == 60,
        lex_lt(a, b),
    ensures
        height_key_height(a) >= height_key_height(b),
{
    if height_key_height(a) < height_key_height(b) {
        let h = height_key_height(a);
        lemma_before_height_start(a, h);
        lemma_before_height_start(b, h);
        lemma_lex_transitive(a, b, be(inverted(h) as nat, 8));
    }
}

/// Past the end of the scan nothing lies in the window.
proof fn lemma_subnet_scan_ends(
    ks: Seq<Seq<u8>>,
    p: int,
    i: int,
    subnet: Seq<u8>,
    from: u64,
    to: u64,
)
    requires
        increasing(ks),
        forall|j: int| 0 <= j < ks.len() ==> (#[trigger] ks[j]).len() == 60,
        subnet.len() == 32,
        0 <= p <= i < ks.len(),
        !lex_lt(ks[i], subnet + be(inverted(from) as nat, 8)),
        ks[i].take(32) != subnet || subnet_key_height(ks[i]) < to,
    ensures
        forall|j: int|
            i <= j < ks.len() ==> !in_subnet_window(#[trigger] ks[j], subnet, from, to),
{
    let start = subnet + be(inverted(from) as nat, 8);
    lemma_be_len(inverted(from) as nat, 8);
    assert(start.take(32) =~= subnet);
    assert forall|j: int| i <= j < ks.len() implies !in_subnet_window(
        #[trigger] ks[j],
        subnet,
        from,
        to,
    ) by {
        if j > i && ks[j].take(32) == subnet {
            lemma_prefix_is_convex(subnet, start, ks[i], ks[j]);
            lemma_subnet_keys_in_order(ks[i], ks[j]);
        }
    }
}

proof fn lemma_height_scan_ends(ks: Seq<Seq<u8>>, i: int, from: u64, to: u64)
    requires
        increasing(ks),
        forall|j: int| 0 <= j < ks.len() ==> (#[trigger] ks[j]).len() == 60,
        0 <= i < ks.len(),
        height_key_height(ks[i]) < to,
    ensures
        forall|j: int| i <= j < ks.len() ==> !in_height_window(#[trigger] ks[j], from, to),
{
    assert forall|j: int| i <= j < ks.len() implies !in_height_window(
        #[trigger] ks[j],
        from,
        to,
    ) by {
        if j > i {
            lemma_height_keys_in_order(ks[i], ks[j]);
        }
    }
}

proof fn lemma_undo_weights_skip(
    ks: Seq<Seq<u8>>,
    vs: Seq<Seq<u8>>,
    a: nat,
    b: nat,
    set: SetView,
    subnet: Seq<u8>,
    from: u64,
    to: u64,
)
    requires
        a <= b,
        forall|j: int| a <= j < b ==> !in_subnet_window(#[trigger] ks[j], subnet, from, to),
    ensures
        undo_weights(ks, vs, a, set, subnet, from, to) == undo_weights(
            ks,
            vs,
            b,
            set,
            subnet,
            from,
            to,
        ),
    decreases b,
{
    if a < b {
        lemma_undo_weights_skip(ks, vs, a, (b - 1) as nat, set, subnet, from, to);
        assert(!in_subnet_window(ks[b - 1], subnet, from, to));
    }
}

proof fn lemma_undo_weights_failed(
    ks: Seq<Seq<u8>>,
    vs: Seq<Seq<u8>>,
    a: nat,
    b: nat,
    set: SetView,
    subnet: Seq<u8>,
    from: u64,
    to: u64,
)
    requires
        a <= b,
        !undo_weights(ks, vs, a, set, subnet, from, to).1,
    ensures
        undo_weights(ks, vs, a, set, subnet, from, to) == undo_weights(
            ks,
            vs,
            b,
            set,
            subnet,
            from,
            to,
        ),
    decreases b,
{
    if a < b {
        lemma_undo_weights_failed(ks, vs, a, (b - 1) as nat, set, subnet, from, to);
    }
}

proof fn lemma_undo_public_keys_skip(
    ks: Seq<Seq<u8>>,
    vs: Seq<Seq<u8>>,
    a: nat,
    b: nat,
    set: SetView,
    subnet: Seq<u8>,
    from: u64,
    to: u64,
)
    requires
        a <= b,
        forall|j: int| a <= j < b ==> !in_subnet_window(#[trigger] ks[j], subnet, from, to),
    ensures
        undo_public_keys(ks, vs, a, set, subnet, from, to) == undo_public_keys(
            ks,
            vs,
            b,
            set,
            subnet,
            from,
            to,
        ),
    decreases b,
{
    if a < b {
        lemma_undo_public_keys_skip(ks, vs, a, (b - 1) as nat, set, subnet, from, to);
        assert(!in_subnet_window(ks[b - 1], subnet, from, to));
    }
}

proof fn lemma_undo_all_weights_skip(
    ks: Seq<Seq<u8>>,
    vs: Seq<Seq<u8>>,
    a: nat,
    b: nat,
    all: AllView,
    from: u64,
    to: u64,
)
    requires
        a <= b,
        forall|j: int| a <= j < b ==> !in_height_window(#[trigger] ks[j], from, to),
    ensures
        undo_all_weights(ks, vs, a, all, from, to) == undo_all_weights(ks, vs, b, all, from, to),
    decreases b,
{
    if a < b {
        lemma_undo_all_weights_skip(ks, vs, a, (b - 1) as nat, all, from, to);
        assert(!in_height_window(ks[b - 1], from, to));
    }
}

proof fn lemma_undo_all_weights_failed(
    ks: Seq<Seq<u8>>,
    vs: Seq<Seq<u8>>,
    a: nat,
    b: nat,
    all: AllView,
    from: u64,
    to: u64,
)
    requires
        a <= b,
        !undo_all_weights(ks, vs, a, all, from, to).1,
    ensures
        undo_all_weights(ks, vs, a, all, from, to) == undo_all_weights(ks, vs, b, all, from, to),
    decreases b,
{
    if a < b {
        lemma_undo_all_weights_failed(ks, vs, a, (b - 1) as nat, all, from, to);
    }
}

proof fn lemma_undo_all_public_keys_skip(
    ks: Seq<Seq<u8>>,
    vs: Seq<Seq<u8>>,
    a: nat,
    b: nat,
    all: AllView,
    from: u64,
    to: u64,
)
    requires
        a <= b,
        forall|j: int| a <= j < b ==> !in_height_window(#[trigger] ks[j], from, to),
    ensures
        undo_all_public_keys(ks, vs, a, all, from, to) == undo_all_public_keys(
            ks,
            vs,
            b,
            all,
            from,
            to,
        ),
    decreases b,
{
    if a < b {
        lemma_undo_all_public_keys_skip(ks, vs, a, (b - 1) as nat, all, from, to);
        assert(!in_height_window(ks[b - 1], from, to));
    }
}

impl WeightDiffStore {
    /// The keys of the stored changes of `subnet` with a height of at most
    /// `from`, in order: the newest come first.
    pub fn scan(&self, from: u64, subnet: Id) -> (r: Vec<Vec<u8>>)
        requires
            self.wf(),
        ensures
            increasing(blob_bytes(r@)),
            forall|k: Seq<u8>| #[trigger]
                blob_bytes(r@).contains(k) <==> self@.contains_key(k) && in_subnet_window(
                    k,
                    subnet@,
                    from,
                    0,
                ),
            forall|i: int, j: int|
                0 <= i < j < r@.len() ==> subnet_key_height((#[trigger] r@[i])@)
                    >= subnet_key_height((#[trigger] r@[j])@),
    {
        let start = marshal_start_diff_key_by_subnet_id(subnet, from);
        let n: usize = self.by_subnet.len();
        let mut i: usize = self.by_subnet.first_from(&start);
        let mut out: Vec<Vec<u8>> = Vec::new();
        let ghost ks = self.by_subnet.keys();
        let ghost p = i as int;
        proof {
            assert(blob_bytes(out@) =~= ks.subrange(p, p));
            assert forall|j: int| 0 <= j < p implies !in_subnet_window(
                #[trigger] ks[j],
                subnet@,
                from,
                0,
            ) by {
                assert(self.by_subnet@.contains_key(ks[j]));
                if ks[j].take(32) == subnet@ {
                    lemma_before_subnet_start(ks[j], subnet@, from);
                }
            }
        }
        while i < n
            invariant
                0 <= p <= i <= n,
                n == ks.len(),
                ks == self.by_subnet.keys(),
                self.wf(),
                increasing(ks),
                start@ == subnet@ + be(inverted(from) as nat, 8),
                forall|j: int| p <= j < n ==> !lex_lt(#[trigger] ks[j], start@),
                forall|j: int| 0 <= j < n ==> self.by_subnet@.contains_key(#[trigger] ks[j]),
                blob_bytes(out@) == ks.subrange(p, i as int),
                forall|j: int| p <= j < i ==> in_subnet_window(#[trigger] ks[j], subnet@, from, 0),
                forall|j: int|
                    0 <= j < p ==> !in_subnet_window(#[trigger] ks[j], subnet@, from, 0),
            ensures
                forall|j: int|
                    i <= j < n ==> !in_subnet_window(#[trigger] ks[j], subnet@, from, 0),
            decreases n - i,
        {
            assert(self.by_subnet@.contains_key(ks[i as int]));
            let key = self.by_subnet.key_at(i);
            if !bytes_eq(slice_subrange(key.as_slice(), 0, 32), subnet.as_bytes()) {
                proof {
                    assert(key@.subrange(0, 32) =~= key@.take(32));
                    assert forall|j: int| 0 <= j < ks.len() implies (#[trigger] ks[j]).len()
                        == 60 by {
                        assert(self.by_subnet@.contains_key(ks[j]));
                    }
                    lemma_subnet_scan_ends(ks, p, i as int, subnet@, from, 0);
                }
                break ;
            }
            proof {
                assert(key@.subrange(0, 32) =~= key@.take(32));
                lemma_before_subnet_start(key@, subnet@, from);
            }
            let ghost before = out@;
            out.push(bytes_copy(key.as_slice()));
            assert(blob_bytes(out@) =~= blob_bytes(before).push(key@));
            assert(ks.subrange(p, i + 1) =~= ks.subrange(p, i as int).push(ks[i as int]));
            i += 1;
        }
        proof {
            let r = blob_bytes(out@);
            assert forall|k: Seq<u8>| #[trigger] r.contains(k) <==> self@.contains_key(k)
                && in_subnet_window(k, subnet@, from, 0) by {
                if r.contains(k) {
                    let j = r.index_of(k);
                    assert(ks[p + j] == k);
                }
                if self@.contains_key(k) && in_subnet_window(k, subnet@, from, 0) {
                    let j = ks.index_of(k);
                    assert(ks.contains(k));
                    assert(ks[j] == k);
                    assert(p <= j < i);
                    assert(r[j - p] == k);
                }
            }
            assert forall|a: int, b: int| 0 <= a < b < out@.len() implies subnet_key_height(
                (#[trigger] out@[a])@,
            ) >= subnet_key_height((#[trigger] out@[b])@) by {
                assert(r[a] == ks[p + a] && r[b] == ks[p + b]);
                assert(self.by_subnet@.contains_key(ks[p + a]));
                assert(self.by_subnet@.contains_key(ks[p + b]));
                lemma_subnet_keys_in_order(ks[p + a], ks[p + b]);
            }
        }
        out
    }
}

/// Undoes, on the set of `subnet`, the stored changes of weights with a height
/// from `to` to `from`, the newest first. Where a change cannot be undone the
/// scan stops there.
pub fn apply_validator_weight_diffs(
    store: &WeightDiffStore,
    set: &mut ValidatorSet,
    from: u64,
    to: u64,
    subnet: Id,
) -> (r: Result<()>)
    requires
        store.wf(),
    ensures
        lists(store.subnet_keys(), store.subnet_vals(), store@),
        (final(set)@, r is Ok) == undo_weights(
            store.subnet_keys(),
            store.subnet_vals(),
            store.subnet_keys().len(),
            old(set)@,
            subnet@,
            from,
            to,
        ),
        r matches Err(e) ==> e == Error::Overflow,
{
    let start = marshal_start_diff_key_by_subnet_id(subnet, from);
    let n: usize = store.by_subnet.len();
    let mut i: usize = store.by_subnet.first_from(&start);
    let ghost ks = store.by_subnet.keys();
    let ghost vs = store.by_subnet.vals();
    let ghost p = i as int;
    proof {
        assert forall|j: int| 0 <= j < p implies !in_subnet_window(
            #[trigger] ks[j],
            subnet@,
            from,
            to,
        ) by {
            assert(store.by_subnet@.contains_key(ks[j]));
            if ks[j].take(32) == subnet@ {
                lemma_before_subnet_start(ks[j], subnet@, from);
            }
        }
        lemma_undo_weights_skip(ks, vs, 0, p as nat, set@, subnet@, from, to);
    }
    while i < n
        invariant
            p <= i <= n,
            n == ks.len(),
            n == vs.len(),
            ks == store.by_subnet.keys(),
            vs == store.by_subnet.vals(),
            store.wf(),
            increasing(ks),
            lists(ks, vs, store@),
            start@ == subnet@ + be(inverted(from) as nat, 8),
            forall|j: int| p <= j < n ==> !lex_lt(#[trigger] ks[j], start@),
            forall|j: int|
                0 <= j < n ==> store.by_subnet@.contains_key(#[trigger] ks[j])
                    && store.by_subnet@[ks[j]] == vs[j],
            0 <= p,
            (set@, true) == undo_weights(ks, vs, i as nat, old(set)@, subnet@, from, to),
        ensures
            (set@, true) == undo_weights(ks, vs, n as nat, old(set)@, subnet@, from, to),
        decreases n - i,
    {
        assert(store.by_subnet@.contains_key(ks[i as int]));
        let key = store.by_subnet.key_at(i);
        let ghost k = key@;
        let (parsed_subnet, parsed_height, node) = unmarshal_diff_key_by_subnet_id(
            key.as_slice(),
        )?;
        proof {
            lemma_subnet_key_parts(k, parsed_subnet@, parsed_height, node@);
            assert forall|j: int| 0 <= j < ks.len() implies (#[trigger] ks[j]).len() == 60 by {
                assert(store.by_subnet@.contains_key(ks[j]));
            }
        }
        if !parsed_subnet.same(&subnet) || parsed_height < to {
            proof {
                lemma_subnet_scan_ends(ks, p, i as int, subnet@, from, to);
                lemma_undo_weights_skip(ks, vs, i as nat, n as nat, old(set)@, subnet@, from, to);
            }
            break ;
        }
        proof {
            lemma_before_subnet_start(k, subnet@, from);
        }
        let value = store.by_subnet.val_at(i);
        let diff = unmarshal_weight_diff(value.as_slice())?;
        proof {
            lemma_be_value_bound(value@.skip(1));
            lemma_pow256();
            assert(stored_diff(vs[i as int]) == diff);
        }
        let r = apply_weight_diff(set, node, &diff);
        if r.is_err() {
            proof {
                lemma_undo_weights_failed(
                    ks,
                    vs,
                    (i + 1) as nat,
                    n as nat,
                    old(set)@,
                    subnet@,
                    from,
                    to,
                );
            }
            return r;
        }
        i += 1;
    }
    Ok(())
}

/// Puts back, on the set of `subnet`, the keys from before the stored changes
/// with a height from `to` to `from`, the newest first. A node that is not in
/// the set is passed over.
pub fn apply_validator_public_key_diffs(
    store: &PublicKeyDiffStore,
    set: &mut ValidatorSet,
    from: u64,
    to: u64,
    subnet: Id,
) -> (r: Result<()>)
    requires
        store.wf(),
    ensures
        lists(store.subnet_keys(), store.subnet_vals(), store@),
        r is Ok,
        final(set)@ == undo_public_keys(
            store.subnet_keys(),
            store.subnet_vals(),
            store.subnet_keys().len(),
            old(set)@,
            subnet@,
            from,
            to,
        ),
{
    let start = marshal_start_diff_key_by_subnet_id(subnet, from);
    let n: usize = store.by_subnet.len();
    let mut i: usize = store.by_subnet.first_from(&start);
    let ghost ks = store.by_subnet.keys();
    let ghost vs = store.by_subnet.vals();
    let ghost p = i as int;
    proof {
        assert forall|j: int| 0 <= j < p implies !in_subnet_window(
            #[trigger] ks[j],
            subnet@,
            from,
            to,
        ) by {
            assert(store.by_subnet@.contains_key(ks[j]));
            if ks[j].take(32) == subnet@ {
                lemma_before_subnet_start(ks[j], subnet@, from);
            }
        }
        lemma_undo_public_keys_skip(ks, vs, 0, p as nat, set@, subnet@, from, to);
    }
    while i < n
        invariant
            p <= i <= n,
            n == ks.len(),
            n == vs.len(),
            ks == store.by_subnet.keys(),
            vs == store.by_subnet.vals(),
            store.wf(),
            increasing(ks),
            start@ == subnet@ + be(inverted(from) as nat, 8),
            forall|j: int| p <= j < n ==> !lex_lt(#[trigger] ks[j], start@),
            forall|j: int|
                0 <= j < n ==> store.by_subnet@.contains_key(#[trigger] ks[j])
                    && store.by_subnet@[ks[j]] == vs[j],
            0 <= p,
            set@ == undo_public_keys(ks, vs, i as nat, old(set)@, subnet@, from, to),
        ensures
            set@ == undo_public_keys(ks, vs, n as nat, old(set)@, subnet@, from, to),
        decreases n - i,
    {
        assert(store.by_subnet@.contains_key(ks[i as int]));
        let key = store.by_subnet.key_at(i);
        let ghost k = key@;
        let (parsed_subnet, parsed_height, node) = unmarshal_diff_key_by_subnet_id(
            key.as_slice(),
        )?;
        proof {
            lemma_subnet_key_parts(k, parsed_subnet@, parsed_height, node@);
            assert forall|j: int| 0 <= j < ks.len() implies (#[trigger] ks[j]).len() == 60 by {
                assert(store.by_subnet@.contains_key(ks[j]));
            }
        }
        if !parsed_subnet.same(&subnet) || parsed_height < to {
            proof {
                lemma_subnet_scan_ends(ks, p, i as int, subnet@, from, to);
                lemma_undo_public_keys_skip(
                    ks,
                    vs,
                    i as nat,
                    n as nat,
                    old(set)@,
                    subnet@,
                    from,
                    to,
                );
            }
            break ;
        }
        proof {
            lemma_before_subnet_start(k, subnet@, from);
        }
        let value = store.by_subnet.val_at(i);
        apply_public_key_diff(set, node, value.as_slice());
        i += 1;
    }
    Ok(())
}

/// Undoes, on the sets of all subnets, the stored changes of weights with a
/// height from `to` to `from`, the newest first. Where a change cannot be
/// undone the scan stops there.
pub fn apply_all_validator_weight_diffs(
    store: &WeightDiffStore,
    all: &mut AllSets,
    from: u64,
    to: u64,
) -> (r: Result<()>)
    requires
        store.wf(),
    ensures
        lists(
            store.height_keys(),
            store.height_vals(),
            zip_map(store.height_keys(), store.height_vals()),
        ),
        indexes_agree(store@, zip_map(store.height_keys(), store.height_vals())),
        (final(all)@, r is Ok) == undo_all_weights(
            store.height_keys(),
            store.height_vals(),
            store.height_keys().len(),
            old(all)@,
            from,
            to,
        ),
        r matches Err(e) ==> e == Error::Overflow,
{
    let start = marshal_start_diff_key_by_height(from);
    let n: usize = store.by_height.len();
    let mut i: usize = store.by_height.first_from(&start);
    let ghost ks = store.by_height.keys();
    let ghost vs = store.by_height.vals();
    let ghost p = i as int;
    proof {
        assert forall|j: int| 0 <= j < p implies !in_height_window(#[trigger] ks[j], from, to) by {
            assert(store.by_height@.contains_key(ks[j]));
            lemma_before_height_start(ks[j], from);
        }
        lemma_undo_all_weights_skip(ks, vs, 0, p as nat, all@, from, to);
    }
    while i < n
        invariant
            p <= i <= n,
            n == ks.len(),
            n == vs.len(),
            ks == store.by_height.keys(),
            vs == store.by_height.vals(),
            store.wf(),
            increasing(ks),
            lists(ks, vs, zip_map(ks, vs)),
            indexes_agree(store@, zip_map(ks, vs)),
            start@ == be(inverted(from) as nat, 8),
            forall|j: int| p <= j < n ==> !lex_lt(#[trigger] ks[j], start@),
            forall|j: int|
                0 <= j < n ==> store.by_height@.contains_key(#[trigger] ks[j])
                    && store.by_height@[ks[j]] == vs[j],
            0 <= p,
            (all@, true) == undo_all_weights(ks, vs, i as nat, old(all)@, from, to),
        ensures
            (all@, true) == undo_all_weights(ks, vs, n as nat, old(all)@, from, to),
        decreases n - i,
    {
        assert(store.by_height@.contains_key(ks[i as int]));
        let key = store.by_height.key_at(i);
        let ghost k = key@;
        let (parsed_height, subnet, node) = unmarshal_diff_key_by_height(key.as_slice())?;
        proof {
            lemma_height_key_parts(k, subnet@, parsed_height, node@);
            assert forall|j: int| 0 <= j < ks.len() implies (#[trigger] ks[j]).len() == 60 by {
                assert(store.by_height@.contains_key(ks[j]));
            }
        }
        if parsed_height < to {
            proof {
                lemma_height_scan_ends(ks, i as int, from, to);
                lemma_undo_all_weights_skip(ks, vs, i as nat, n as nat, old(all)@, from, to);
            }
            break ;
        }
        proof {
            lemma_before_height_start(k, from);
        }
        let value = store.by_height.val_at(i);
        let diff = unmarshal_weight_diff(value.as_slice())?;
        proof {
            lemma_be_value_bound(value@.skip(1));
            lemma_pow256();
            assert(stored_diff(vs[i as int]) == diff);
        }
        let ghost before = all@;
        let mut set = match all.take(&subnet) {
            Some(set) => set,
            None => OrdMap::new(),
        };
        assert(set@ == set_of(before, subnet@));
        let r = apply_weight_diff(&mut set, node, &diff);
        if r.is_err() || !set.is_empty() {
            let ghost sv = set@;
            all.insert(subnet, set);
            assert(all@ =~= before.insert(subnet@, sv));
        }
        assert((all@, r is Ok) == undo_weight_in(before, subnet@, node@, diff));
        if r.is_err() {
            proof {
                lemma_undo_all_weights_failed(
                    ks,
                    vs,
                    (i + 1) as nat,
                    n as nat,
                    old(all)@,
                    from,
                    to,
                );
            }
            return r;
        }
        i += 1;
    }
    Ok(())
}

/// Puts back, on the sets of all subnets, the keys from before the stored
/// changes with a height from `to` to `from`, the newest first. A node that is
/// in no set is passed over.
pub fn apply_all_validator_public_key_diffs(
    store: &PublicKeyDiffStore,
    all: &mut AllSets,
    from: u64,
    to: u64,
) -> (r: Result<()>)
    requires
        store.wf(),
    ensures
        lists(
            store.height_keys(),
            store.height_vals(),
            zip_map(store.height_keys(), store.height_vals()),
        ),
        indexes_agree(store@, zip_map(store.height_keys(), store.height_vals())),
        r is Ok,
        final(all)@ == undo_all_public_keys(
            store.height_keys(),
            store.height_vals(),
            store.height_keys().len(),
            old(all)@,
            from,
            to,
        ),
{
    let start = marshal_start_diff_key_by_height(from);
    let n: usize = store.by_height.len();
    let mut i: usize = store.by_height.first_from(&start);
    let ghost ks = store.by_height.keys();
    let ghost vs = store.by_height.vals();
    let ghost p = i as int;
    proof {
        assert forall|j: int| 0 <= j < p implies !in_height_window(#[trigger] ks[j], from, to) by {
            assert(store.by_height@.contains_key(ks[j]));
            lemma_before_height_start(ks[j], from);
        }
        lemma_undo_all_public_keys_skip(ks, vs, 0, p as nat, all@, from, to);
    }
    while i < n
        invariant
            p <= i <= n,
            n == ks.len(),
            n == vs.len(),
            ks == store.by_height.keys(),
            vs == store.by_height.vals(),
            store.wf(),
            increasing(ks),
            start@ == be(inverted(from) as nat, 8),
            forall|j: int| p <= j < n ==> !lex_lt(#[trigger] ks[j], start@),
            forall|j: int|
                0 <= j < n ==> store.by_height@.contains_key(#[trigger] ks[j])
                    && store.by_height@[ks[j]] == vs[j],
            0 <= p,
            all@ == undo_all_public_keys(ks, vs, i as nat, old(all)@, from, to),
        ensures
            all@ == undo_all_public_keys(ks, vs, n as nat, old(all)@, from, to),
        decreases n - i,
    {
        assert(store.by_height@.contains_key(ks[i as int]));
        let key = store.by_height.key_at(i);
        let ghost k = key@;
        let (parsed_height, subnet, node) = unmarshal_diff_key_by_height(key.as_slice())?;
        proof {
            lemma_height_key_parts(k, subnet@, parsed_height, node@);
            assert forall|j: int| 0 <= j < ks.len() implies (#[trigger] ks[j]).len() == 60 by {
                assert(store.by_height@.contains_key(ks[j]));
            }
        }
        if parsed_height < to {
            proof {
                lemma_height_scan_ends(ks, i as int, from, to);
                lemma_undo_all_public_keys_skip(ks, vs, i as nat, n as nat, old(all)@, from, to);
            }
            break ;
        }
        proof {
            lemma_before_height_start(k, from);
        }
        let value = store.by_height.val_at(i);
        let ghost before = all@;
        if let Some(set) = all.take(&subnet) {
            let mut set = set;
            apply_public_key_diff(&mut set, node, value.as_slice());
            all.insert(subnet, set);
        }
        assert(all@ =~= undo_public_key_in(before, subnet@, node@, vs[i as int]));
        i += 1;
    }
    Ok(())
}

/// Empty stores of both kinds.
pub fn stores_over() -> (r: (WeightDiffStore, PublicKeyDiffStore))
    ensures
        r.0.wf(),
        r.1.wf(),
        r.0@ == Map::<Seq<u8>, Seq<u8>>::empty(),
        r.1@ == Map::<Seq<u8>, Seq<u8>>::empty(),
{
    (WeightDiffStore::new(), PublicKeyDiffStore::new())
}

/// The change from the weight `before` to the weight `after`.
pub open spec fn weight_change(before: u64, after: u64) -> ValidatorWeightDiff {
    if after < before {
        ValidatorWeightDiff { decrease: true, amount: (before - after) as u64 }
    } else {
        ValidatorWeightDiff { decrease: false, amount: (after - before) as u64 }
    }
}

/// The weight of `node`, which is zero where it has none.
pub open spec fn weight_of(weights: Map<Seq<u8>, u64>, node: Seq<u8>) -> u64 {
    if weights.contains_key(node) {
        weights[node]
    } else {
        0
    }
}

/// `stored` holds, at `height`, exactly the changes of weights that lead from
/// `before` to the set `after`.
pub open spec fn records_weights(
    stored: Map<Seq<u8>, Seq<u8>>,
    subnet: Seq<u8>,
    height: u64,
    before: Map<Seq<u8>, u64>,
    after: SetView,
) -> bool {
    forall|n: Seq<u8>|
        #![trigger subnet_diff_key(subnet, height, n)]
        n.len() == 20 ==> {
            let k = subnet_diff_key(subnet, height, n);
            let b = weight_of(before, n);
            let a = entry_of(after, n).weight;
            &&& stored.contains_key(k) <==> a != b
            &&& a != b ==> stored[k] == weight_diff_bytes(weight_change(b, a))
        }
}

/// The set `after` with the weights `before`: nodes that have none are left
/// out.
pub open spec fn with_weights(before: Map<Seq<u8>, u64>, after: SetView) -> SetView {
    Map::new(
        |n: Seq<u8>| before.contains_key(n),
        |n: Seq<u8>|
            DiffValidatorView { weight: before[n], public_key: entry_of(after, n).public_key },
    )
}

spec fn undone(ks: Seq<Seq<u8>>, n: nat, subnet: Seq<u8>, height: u64, node: Seq<u8>) -> bool {
    exists|j: int| 0 <= j < n && #[trigger] ks[j] == subnet_diff_key(subnet, height, node)
}

spec fn partly_restored(
    ks: Seq<Seq<u8>>,
    n: nat,
    subnet: Seq<u8>,
    height: u64,
    before: Map<Seq<u8>, u64>,
    after: SetView,
) -> SetView {
    Map::new(
        |x: Seq<u8>|
            (if undone(ks, n, subnet, height, x) {
                weight_of(before, x)
            } else {
                entry_of(after, x).weight
            }) > 0,
        |x: Seq<u8>|
            DiffValidatorView {
                weight: if undone(ks, n, subnet, height, x) {
                    weight_of(before, x)
                } else {
                    entry_of(after, x).weight
                },
                public_key: entry_of(after, x).public_key,
            },
    )
}

proof fn lemma_window_key(k: Seq<u8>, subnet: Seq<u8>, height: u64)
    requires
        k.len() == 60,
        subnet.len() == 32,
    ensures
        in_subnet_window(k, subnet, height, height) <==> k == subnet_diff_key(
            subnet,
            height,
            key_node(k),
        ),
{
    let hb = k.subrange(32, 40);
    lemma_be_be_value(hb);
    lemma_be_value_bound(hb);
    lemma_pow256();
    if in_subnet_window(k, subnet, height, height) {
        assert(hb == be(inverted(height) as nat, 8));
        assert(k =~= subnet_diff_key(subnet, height, key_node(k)));
    }
    if k == subnet_diff_key(subnet, height, key_node(k)) {
        lemma_subnet_key_parts(k, subnet, height, key_node(k));
    }
}

proof fn lemma_partly_restored(
    ks: Seq<Seq<u8>>,
    vs: Seq<Seq<u8>>,
    n: nat,
    subnet: Seq<u8>,
    height: u64,
    before: Map<Seq<u8>, u64>,
    after: SetView,
)
    requires
        n <= ks.len(),
        ks.len() == vs.len(),
        increasing(ks),
        subnet.len() == 32,
        forall|j: int| 0 <= j < ks.len() ==> (#[trigger] ks[j]).len() == 60,
        forall|j: int|
            0 <= j < ks.len() ==> zip_map(ks, vs).contains_key(#[trigger] ks[j]) && zip_map(ks, vs)[ks[j]]
                == vs[j],
        records_weights(zip_map(ks, vs), subnet, height, before, after),
        forall|x: Seq<u8>| #[trigger] after.contains_key(x) ==> after[x].weight > 0,
        forall|x: Seq<u8>| #[trigger] before.contains_key(x) ==> before[x] > 0,
    ensures
        undo_weights(ks, vs, n, after, subnet, height, height) == (
            partly_restored(ks, n, subnet, height, before, after),
            true,
        ),
    decreases n,
{
    if n == 0 {
        assert(partly_restored(ks, 0, subnet, height, before, after) =~= after);
    } else {
        let i = (n - 1) as nat;
        lemma_partly_restored(ks, vs, i, subnet, height, before, after);
        let m = partly_restored(ks, i, subnet, height, before, after);
        let r = partly_restored(ks, n, subnet, height, before, after);
        let k = ks[i as int];
        let x = key_node(k);
        lemma_window_key(k, subnet, height);
        assert forall|y: Seq<u8>| undone(ks, n, subnet, height, y) implies undone(
            ks,
            i,
            subnet,
            height,
            y,
        ) || k == subnet_diff_key(subnet, height, y) by {
            let j = choose|j: int|
                0 <= j < n && #[trigger] ks[j] == subnet_diff_key(subnet, height, y);
            if j < i {
                assert(undone(ks, i, subnet, height, y));
            }
        }
        assert forall|y: Seq<u8>| undone(ks, i, subnet, height, y) implies undone(
            ks,
            n,
            subnet,
            height,
            y,
        ) by {
            let j = choose|j: int|
                0 <= j < i && #[trigger] ks[j] == subnet_diff_key(subnet, height, y);
            assert(ks[j] == subnet_diff_key(subnet, height, y));
        }
        if in_subnet_window(k, subnet, height, height) {
            assert forall|y: Seq<u8>| k == subnet_diff_key(subnet, height, y) implies y == x by {
                subnet_diff_keys_are_distinct(subnet, height, x, subnet, height, y);
            }
            assert(undone(ks, n, subnet, height, x)) by {
                assert(ks[i as int] == subnet_diff_key(subnet, height, x));
            }
            assert(!undone(ks, i, subnet, height, x)) by {
                if undone(ks, i, subnet, height, x) {
                    let j = choose|j: int|
                        0 <= j < i && #[trigger] ks[j] == subnet_diff_key(subnet, height, x);
                    lemma_lex_antisymmetric(ks[j], ks[i as int]);
                }
            }
            assert(x.len() == 20);
            let b = weight_of(before, x);
            let a = entry_of(after, x).weight;
            assert(zip_map(ks, vs).contains_key(subnet_diff_key(subnet, height, x)));
            let d = weight_change(b, a);
            assert(vs[i as int] == weight_diff_bytes(d));
            weight_diff_round_trip(d);
            assert(stored_diff(vs[i as int]) == d);
            assert(entry_of(m, x) == entry_of(after, x));
            assert(weight_before(a, d) == b);
            assert(undo_weight(m, x, d).0 =~= r);
        } else {
            assert(m =~= r) by {
                assert forall|y: Seq<u8>| undone(ks, n, subnet, height, y) implies undone(
                    ks,
                    i,
                    subnet,
                    height,
                    y,
                ) by {
                    if k == subnet_diff_key(subnet, height, y) {
                        lemma_subnet_key_parts(k, subnet, height, y);
                    }
                }
            }
        }
    }
}

/// Undoing the changes that were stored at a height gives the weights from
/// before it.
pub proof fn undoing_restores_weights(
    ks: Seq<Seq<u8>>,
    vs: Seq<Seq<u8>>,
    subnet: Seq<u8>,
    height: u64,
    before: Map<Seq<u8>, u64>,
    after: SetView,
)
    requires
        ks.len() == vs.len(),
        increasing(ks),
        subnet.len() == 32,
        forall|j: int| 0 <= j < ks.len() ==> (#[trigger] ks[j]).len() == 60,
        records_weights(zip_map(ks, vs), subnet, height, before, after),
        forall|x: Seq<u8>| #[trigger] after.contains_key(x) ==> after[x].weight > 0 && x.len() == 20,
        forall|x: Seq<u8>| #[trigger] before.contains_key(x) ==> before[x] > 0 && x.len() == 20,
    ensures
        undo_weights(ks, vs, ks.len(), after, subnet, height, height) == (
            with_weights(before, after),
            true,
        ),
{
    let m = zip_map(ks, vs);
    assert forall|j: int| 0 <= j < ks.len() implies m.contains_key(#[trigger] ks[j]) && m[ks[j]]
        == vs[j] by {
        assert(ks.contains(ks[j]));
        let q = ks.index_of(ks[j]);
        if q < j {
            lemma_lex_antisymmetric(ks[q], ks[j]);
        } else if j < q {
            lemma_lex_antisymmetric(ks[j], ks[q]);
        }
    }
    lemma_partly_restored(ks, vs, ks.len(), subnet, height, before, after);
    let r = partly_restored(ks, ks.len(), subnet, height, before, after);
    let w = with_weights(before, after);
    assert forall|x: Seq<u8>| x.len() == 20 implies undone(ks, ks.len(), subnet, height, x) == (
    weight_of(before, x) != entry_of(after, x).weight) by {
        let k = subnet_diff_key(subnet, height, x);
        if m.contains_key(k) {
            assert(ks[ks.index_of(k)] == k);
        }
        if undone(ks, ks.len(), subnet, height, x) {
            let j = choose|j: int| 0 <= j < ks.len() && #[trigger] ks[j] == k;
            assert(m.contains_key(ks[j]));
        }
    }
    assert forall|x: Seq<u8>| x.len() != 20 implies !undone(ks, ks.len(), subnet, height, x) by {
        if undone(ks, ks.len(), subnet, height, x) {
            let j = choose|j: int|
                0 <= j < ks.len() && #[trigger] ks[j] == subnet_diff_key(subnet, height, x);
            lemma_be_len(inverted(height) as nat, 8);
            assert(ks[j].len() == 60);
        }
    }
    assert forall|x: Seq<u8>| r.contains_key(x) == #[trigger] w.contains_key(x) by {
        if x.len() == 20 {
        }
    }
    assert(r =~= w);
}

/// The key that `keys` holds of `node`.
pub open spec fn key_of(keys: Map<Seq<u8>, Seq<u8>>, node: Seq<u8>) -> Option<Seq<u8>> {
    if keys.contains_key(node) {
        Some(keys[node])
    } else {
        None
    }
}

/// The bytes that a key is stored as: none where there is no key.
pub open spec fn key_bytes(key: Option<Seq<u8>>) -> Seq<u8> {
    match key {
        Some(k) => k,
        None => Seq::empty(),
    }
}

/// `stored` holds, at `height`, the keys `before` of exactly those nodes of
/// the set `after` whose key changed.
pub open spec fn records_keys(
    stored: Map<Seq<u8>, Seq<u8>>,
    subnet: Seq<u8>,
    height: u64,
    before: Map<Seq<u8>, Seq<u8>>,
    after: SetView,
) -> bool {
    forall|n: Seq<u8>|
        #![trigger subnet_diff_key(subnet, height, n)]
        after.contains_key(n) ==> {
            let k = subnet_diff_key(subnet, height, n);
            &&& stored.contains_key(k) <==> key_of(before, n) != after[n].public_key
            &&& stored.contains_key(k) ==> stored[k] == key_bytes(key_of(before, n))
        }
}

/// The set `after` with the keys `before`.
pub open spec fn with_keys(before: Map<Seq<u8>, Seq<u8>>, after: SetView) -> SetView {
    after.map_entries(
        |n: Seq<u8>, v: DiffValidatorView| DiffValidatorView { public_key: key_of(before, n), ..v },
    )
}

spec fn partly_rekeyed(
    ks: Seq<Seq<u8>>,
    n: nat,
    subnet: Seq<u8>,
    height: u64,
    before: Map<Seq<u8>, Seq<u8>>,
    after: SetView,
) -> SetView {
    after.map_entries(
        |x: Seq<u8>, v: DiffValidatorView|
            if undone(ks, n, subnet, height, x) {
                DiffValidatorView { public_key: key_of(before, x), ..v }
            } else {
                v
            },
    )
}

proof fn lemma_partly_rekeyed(
    ks: Seq<Seq<u8>>,
    vs: Seq<Seq<u8>>,
    n: nat,
    subnet: Seq<u8>,
    height: u64,
    before: Map<Seq<u8>, Seq<u8>>,
    after: SetView,
)
    requires
        n <= ks.len(),
        ks.len() == vs.len(),
        increasing(ks),
        subnet.len() == 32,
        forall|j: int| 0 <= j < ks.len() ==> (#[trigger] ks[j]).len() == 60,
        forall|j: int|
            0 <= j < ks.len() ==> zip_map(ks, vs).contains_key(#[trigger] ks[j]) && zip_map(ks, vs)[ks[j]]
                == vs[j],
        records_keys(zip_map(ks, vs), subnet, height, before, after),
        forall|x: Seq<u8>| #[trigger] before.contains_key(x) ==> before[x].len() > 0,
    ensures
        undo_public_keys(ks, vs, n, after, subnet, height, height) == partly_rekeyed(
            ks,
            n,
            subnet,
            height,
            before,
            after,
        ),
    decreases n,
{
    if n == 0 {
        assert(partly_rekeyed(ks, 0, subnet, height, before, after) =~= after);
    } else {
        let i = (n - 1) as nat;
        lemma_partly_rekeyed(ks, vs, i, subnet, height, before, after);
        let m = partly_rekeyed(ks, i, subnet, height, before, after);
        let r = partly_rekeyed(ks, n, subnet, height, before, after);
        let k = ks[i as int];
        let x = key_node(k);
        lemma_window_key(k, subnet, height);
        assert forall|y: Seq<u8>| undone(ks, n, subnet, height, y) implies undone(
            ks,
            i,
            subnet,
            height,
            y,
        ) || k == subnet_diff_key(subnet, height, y) by {
            let j = choose|j: int|
                0 <= j < n && #[trigger] ks[j] == subnet_diff_key(subnet, height, y);
            if j < i {
                assert(undone(ks, i, subnet, height, y));
            }
        }
        assert forall|y: Seq<u8>| undone(ks, i, subnet, height, y) implies undone(
            ks,
            n,
            subnet,
            height,
            y,
        ) by {
            let j = choose|j: int|
                0 <= j < i && #[trigger] ks[j] == subnet_diff_key(subnet, height, y);
            assert(ks[j] == subnet_diff_key(subnet, height, y));
        }
        if in_subnet_window(k, subnet, height, height) {
            assert forall|y: Seq<u8>| k == subnet_diff_key(subnet, height, y) implies y == x by {
                subnet_diff_keys_are_distinct(subnet, height, x, subnet, height, y);
            }
            assert(undone(ks, n, subnet, height, x)) by {
                assert(ks[i as int] == subnet_diff_key(subnet, height, x));
            }
            if after.contains_key(x) {
                assert(zip_map(ks, vs).contains_key(subnet_diff_key(subnet, height, x)));
                assert(vs[i as int] == key_bytes(key_of(before, x)));
            }
            assert(undo_public_key(m, x, vs[i as int]) =~= r);
        } else {
            assert(m =~= r) by {
                assert forall|y: Seq<u8>| undone(ks, n, subnet, height, y) implies undone(
                    ks,
                    i,
                    subnet,
                    height,
                    y,
                ) by {
                    if k == subnet_diff_key(subnet, height, y) {
                        lemma_subnet_key_parts(k, subnet, height, y);
                    }
                }
            }
        }
    }
}

/// Undoing the changes that were stored at a height gives the nodes of the set
/// the keys that they had before it.
pub proof fn undoing_restores_keys(
    ks: Seq<Seq<u8>>,
    vs: Seq<Seq<u8>>,
    subnet: Seq<u8>,
    height: u64,
    before: Map<Seq<u8>, Seq<u8>>,
    after: SetView,
)
    requires
        ks.len() == vs.len(),
        increasing(ks),
        subnet.len() == 32,
        forall|j: int| 0 <= j < ks.len() ==> (#[trigger] ks[j]).len() == 60,
        records_keys(zip_map(ks, vs), subnet, height, before, after),
        forall|x: Seq<u8>| #[trigger] before.contains_key(x) ==> before[x].len() > 0,
    ensures
        undo_public_keys(ks, vs, ks.len(), after, subnet, height, height) == with_keys(
            before,
            after,
        ),
{
    let m = zip_map(ks, vs);
    assert forall|j: int| 0 <= j < ks.len() implies m.contains_key(#[trigger] ks[j]) && m[ks[j]]
        == vs[j] by {
        assert(ks.contains(ks[j]));
        let q = ks.index_of(ks[j]);
        if q < j {
            lemma_lex_antisymmetric(ks[q], ks[j]);
        } else if j < q {
            lemma_lex_antisymmetric(ks[j], ks[q]);
        }
    }
    lemma_partly_rekeyed(ks, vs, ks.len(), subnet, height, before, after);
    let r = partly_rekeyed(ks, ks.len(), subnet, height, before, after);
    let w = with_keys(before, after);
    assert forall|x: Seq<u8>| #[trigger] after.contains_key(x) implies r[x] == w[x] by {
        let k = subnet_diff_key(subnet, height, x);
        if m.contains_key(k) {
            assert(ks[ks.index_of(k)] == k);
            assert(undone(ks, ks.len(), subnet, height, x));
        }
        if undone(ks, ks.len(), subnet, height, x) {
            let j = choose|j: int| 0 <= j < ks.len() && #[trigger] ks[j] == k;
            assert(m.contains_key(ks[j]));
        }
    }
    assert(r =~= w);
}

proof fn lemma_no_older_yet(
    ks: Seq<Seq<u8>>,
    vs: Seq<Seq<u8>>,
    n: nat,
    i: int,
    set: SetView,
    subnet: Seq<u8>,
    mid: u64,
    to: u64,
)
    requires
        increasing(ks),
        forall|j: int| 0 <= j < ks.len() ==> (#[trigger] ks[j]).len() == 60,
        n <= i < ks.len(),
        ks[i].take(32) == subnet,
        subnet_key_height(ks[i]) > mid,
    ensures
        undo_weights(ks, vs, n, set, subnet, mid, to) == (set, true),
    decreases n,
{
    if n > 0 {
        lemma_no_older_yet(ks, vs, (n - 1) as nat, i, set, subnet, mid, to);
        if ks[n - 1].take(32) == subnet {
            lemma_subnet_keys_in_order(ks[n - 1], ks[i]);
        }
    }
}

proof fn lemma_undoing_in_two_steps(
    ks: Seq<Seq<u8>>,
    vs: Seq<Seq<u8>>,
    n: nat,
    set: SetView,
    subnet: Seq<u8>,
    from: u64,
    mid: u64,
    to: u64,
)
    requires
        n <= ks.len(),
        increasing(ks),
        forall|j: int| 0 <= j < ks.len() ==> (#[trigger] ks[j]).len() == 60,
        to <= mid < from,
    ensures
        ({
            let first = undo_weights(ks, vs, n, set, subnet, from, (mid + 1) as u64);
            undo_weights(ks, vs, n, set, subnet, from, to) == if first.1 {
                undo_weights(ks, vs, n, first.0, subnet, mid, to)
            } else {
                first
            }
        }),
    decreases n,
{
    if n > 0 {
        let i = (n - 1) as nat;
        let k = ks[i as int];
        let up = (mid + 1) as u64;
        lemma_undoing_in_two_steps(ks, vs, i, set, subnet, from, mid, to);
        let first = undo_weights(ks, vs, i, set, subnet, from, up);
        if in_subnet_window(k, subnet, from, up) {
            if first.1 {
                lemma_no_older_yet(ks, vs, i, i as int, first.0, subnet, mid, to);
                let next = undo_weight(first.0, key_node(k), stored_diff(vs[i as int]));
                lemma_no_older_yet(ks, vs, i, i as int, next.0, subnet, mid, to);
            }
        }
    }
}

/// Undoing down to a height, and then further down, is undoing all the way
/// at once. Where the first step fails, so does the whole.
pub proof fn undoing_in_two_steps(
    ks: Seq<Seq<u8>>,
    vs: Seq<Seq<u8>>,
    set: SetView,
    subnet: Seq<u8>,
    from: u64,
    mid: u64,
    to: u64,
)
    requires
        increasing(ks),
        forall|j: int| 0 <= j < ks.len() ==> (#[trigger] ks[j]).len() == 60,
        to <= mid < from,
    ensures
        ({
            let first = undo_weights(ks, vs, ks.len(), set, subnet, from, (mid + 1) as u64);
            undo_weights(ks, vs, ks.len(), set, subnet, from, to) == if first.1 {
                undo_weights(ks, vs, ks.len(), first.0, subnet, mid, to)
            } else {
                first
            }
        }),
{
    lemma_undoing_in_two_steps(ks, vs, ks.len(), set, subnet, from, mid, to);
}

} // verus!
