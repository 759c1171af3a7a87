//! A set of stakers in order, with its validators at hand by subnet and node.
use vstd::prelude::*;

use crate::collections::ordmap::{increasing, Key, OrdMap};
use crate::ids::{Id, NodeId};
use crate::state::staker::{member_key, order_key, MemberKey, Staker, StakerKey};

verus! {

/// A set of stakers: all of them by their place in the order, and its
/// validators by subnet and node.
#[verifier::ext_equal]
pub struct StakersView {
    /// Every staker, by its place in the order.
    pub set: Map<Seq<u8>, Staker>,
    /// The validators, by subnet and node.
    pub validators: Map<Seq<u8>, Staker>,
}

/// The key of a staker's node within its subnet.
pub open spec fn member_of(s: Staker) -> Seq<u8> {
    member_key(s.subnet_id@, s.node_id@)
}

/// `s` at its place, unless another staker is there already.
pub open spec fn placed(set: Map<Seq<u8>, Staker>, s: Staker) -> Map<Seq<u8>, Staker> {
    if set.contains_key(order_key(s)) {
        set
    } else {
        set.insert(order_key(s), s)
    }
}

impl StakersView {
    /// No stakers.
    pub open spec fn empty() -> StakersView {
        StakersView { set: Map::empty(), validators: Map::empty() }
    }

    /// With the validator `s` in place of the one that its node had before.
    pub open spec fn put_validator(self, s: Staker) -> StakersView {
        let set = if self.validators.contains_key(member_of(s)) {
            self.set.remove(order_key(self.validators[member_of(s)]))
        } else {
            self.set
        };
        StakersView { set: placed(set, s), validators: self.validators.insert(member_of(s), s) }
    }

    /// Without the validator `s`.
    pub open spec fn delete_validator(self, s: Staker) -> StakersView {
        StakersView {
            set: self.set.remove(order_key(s)),
            validators: self.validators.remove(member_of(s)),
        }
    }

    /// With the delegator `s`.
    pub open spec fn put_delegator(self, s: Staker) -> StakersView {
        StakersView { set: placed(self.set, s), ..self }
    }

    /// Without the delegator `s`.
    pub open spec fn delete_delegator(self, s: Staker) -> StakersView {
        StakersView { set: self.set.remove(order_key(s)), ..self }
    }
}

/// `list` holds the stakers of `set`, each once, in order.
pub open spec fn lists(set: Map<Seq<u8>, Staker>, list: Seq<Staker>) -> bool {
    &&& increasing(list.map_values(|s: Staker| order_key(s)))
    &&& forall|i: int|
        0 <= i < list.len() ==> set.contains_key(order_key(#[trigger] list[i])) && set[order_key(
            list[i],
        )] == list[i]
    &&& forall|k: Seq<u8>| #[trigger]
        set.contains_key(k) ==> exists|i: int| 0 <= i < list.len() && order_key(#[trigger] list[i]) == k
}

/// The stakers of a set.
pub struct Stakers {
    set: OrdMap<StakerKey, Staker>,
    validators: OrdMap<MemberKey, Staker>,
}

impl View for Stakers {
    type V = StakersView;

    closed spec fn view(&self) -> StakersView {
        StakersView { set: self.set@, validators: self.validators@ }
    }
}

impl Stakers {
    /// Every staker stands at its own place, and every validator under its own
    /// node.
    pub closed spec fn wf(&self) -> bool {
        &&& forall|k: Seq<u8>| #[trigger] self.set@.contains_key(k) ==> order_key(self.set@[k]) == k
        &&& forall|k: Seq<u8>| #[trigger]
            self.validators@.contains_key(k) ==> member_of(self.validators@[k]) == k
    }

    /// No stakers.
    pub fn new() -> (r: Stakers)
        ensures
            r.wf(),
            r@ == StakersView::empty(),
    {
        let r = Stakers { set: OrdMap::new(), validators: OrdMap::new() };
        assert(r@ =~= StakersView::empty());
        r
    }

    fn place(&mut self, s: Staker)
        requires
            old(self).wf(),
        ensures
            final(self).wf(),
            final(self)@ == old(self)@.put_delegator(s),
    {
        let k = StakerKey::of(&s);
        if !self.set.contains(&k) {
            self.set.insert(k, s);
        }
        assert(self@ =~= old(self)@.put_delegator(s));
    }

    /// Adds the validator `s`, in place of the one that its node had before.
    pub fn put_validator(&mut self, s: Staker)
        requires
            old(self).wf(),
        ensures
            final(self).wf(),
            final(self)@ == old(self)@.put_validator(s),
    {
        let m = MemberKey { subnet_id: s.subnet_id, node_id: s.node_id };
        let previous: Option<Staker> = match self.validators.get(&m) {
            Some(p) => Some(*p),
            None => None,
        };
        if let Some(p) = previous {
            let pk = StakerKey::of(&p);
            self.set.remove(&pk);
        }
        self.validators.insert(m, s);
        self.place(s);
        assert(self@ =~= old(self)@.put_validator(s));
    }

    /// Removes the validator `s`.
    pub fn delete_validator(&mut self, s: &Staker)
        requires
            old(self).wf(),
        ensures
            final(self).wf(),
            final(self)@ == old(self)@.delete_validator(*s),
    {
        let m = MemberKey { subnet_id: s.subnet_id, node_id: s.node_id };
        self.validators.remove(&m);
        let k = StakerKey::of(s);
        self.set.remove(&k);
        assert(self@ =~= old(self)@.delete_validator(*s));
    }

    /// Adds the delegator `s`.
    pub fn put_delegator(&mut self, s: Staker)
        requires
            old(self).wf(),
        ensures
            final(self).wf(),
            final(self)@ == old(self)@.put_delegator(s),
    {
        self.place(s);
    }

    /// Removes the delegator `s`.
    pub fn delete_delegator(&mut self, s: &Staker)
        requires
            old(self).wf(),
        ensures
            final(self).wf(),
            final(self)@ == old(self)@.delete_delegator(*s),
    {
        let k = StakerKey::of(s);
        self.set.remove(&k);
        assert(self@ =~= old(self)@.delete_delegator(*s));
    }

    /// The validator of `subnet` on `node`.
    pub fn get_validator(&self, subnet: Id, node: NodeId) -> (r: Option<Staker>)
        requires
            self.wf(),
        ensures
            r is Some <==> self@.validators.contains_key(member_key(subnet@, node@)),
            r matches Some(s) ==> s == self@.validators[member_key(subnet@, node@)] && member_of(s)
                == member_key(subnet@, node@),
    {
        let m = MemberKey { subnet_id: subnet, node_id: node };
        match self.validators.get(&m) {
            Some(s) => Some(*s),
            None => None,
        }
    }

    /// The number of stakers.
    pub fn len(&self) -> (n: usize)
        requires
            self.wf(),
        ensures
            n == self.in_order().len(),
            lists(self@.set, self.in_order()),
    {
        let n: usize = self.set.len();
        proof {
            self.lemma_in_order();
        }
        n
    }

    proof fn lemma_in_order(&self)
        requires
            self.wf(),
            self.set.keys().len() == self.set.vals().len(),
            increasing(self.set.keys()),
            forall|i: int|
                0 <= i < self.set.keys().len() ==> self.set@.contains_key(
                    #[trigger] self.set.keys()[i],
                ) && self.set@[self.set.keys()[i]] == self.set.vals()[i],
            forall|k: Seq<u8>| #[trigger]
                self.set@.contains_key(k) ==> self.set.keys().contains(k),
        ensures
            lists(self@.set, self.in_order()),
    {
        let list = self.set.vals();
        let ks = self.set.keys();
        assert forall|i: int| 0 <= i < list.len() implies order_key(#[trigger] list[i]) == ks[i] by {
            assert(self.set@.contains_key(ks[i]));
        }
        assert(list.map_values(|s: Staker| order_key(s)) =~= ks);
        assert forall|k: Seq<u8>| #[trigger] self@.set.contains_key(k) implies exists|i: int|
            0 <= i < list.len() && order_key(#[trigger] list[i]) == k by {
            let i = ks.index_of(k);
            assert(order_key(list[i]) == k);
        }
    }

    /// The stakers, in order.
    pub closed spec fn in_order(&self) -> Seq<Staker> {
        self.set.vals()
    }

    /// The `i`-th staker in order.
    pub fn at(&self, i: usize) -> (r: Staker)
        requires
            i < self.in_order().len(),
        ensures
            r == self.in_order()[i as int],
    {
        let _ = self.set.len();
        *self.set.val_at(i)
    }

    /// All stakers, in order.
    pub fn to_vec(&self) -> (r: Vec<Staker>)
        requires
            self.wf(),
        ensures
            r@ == self.in_order(),
            lists(self@.set, r@),
    {
        let n: usize = self.len();
        let mut out: Vec<Staker> = Vec::new();
        let mut i: usize = 0;
        while i < n
            invariant
                i <= n,
                n == self.in_order().len(),
                out@ == self.in_order().take(i as int),
            decreases n - i,
        {
            out.push(self.at(i));
            assert(out@ =~= self.in_order().take(i + 1));
            i += 1;
        }
        assert(out@ =~= self.in_order());
        out
    }

    /// A copy of the set.
    pub fn copy(&self) -> (r: Stakers)
        requires
            self.wf(),
        ensures
            r.wf(),
            r@ == self@,
            r.in_order() == self.in_order(),
    {
        let set = self.set.dup();
        let validators = self.validators.dup();
        let r = Stakers { set, validators };
        assert(r@ =~= self@);
        r
    }
}

} // verus!
