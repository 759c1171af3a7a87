//! Layers of changes, and the lists that a state gives.
use vstd::prelude::*;

use crate::error::Result;
use crate::ids::Id;
use crate::state::chain::{Chain, Versions};
use crate::state::diff::{Diff, Parent};
use crate::state::l1_set::lemma_subnet_weight_remove;
use crate::state::l1_validator::{L1Validator, L1View};
use crate::state::staker::Staker;
use crate::state::stakers::lists;

verus! {

/// A new layer reads just what is below it, and making it changes nothing there.
pub proof fn a_new_layer_reads_what_is_below<V: Versions>(
    parent: Parent,
    d: Diff,
    id: Id,
    versions: &V,
    r: Result<Diff>,
)
    requires
        parent.wf(),
        call_ensures(Diff::on, (parent,), d),
        versions.versions_wf(),
        call_ensures(Diff::new::<V>, (id, versions), r),
    ensures
        d.wf() && d.below() == parent,
        d.model() == parent.model(),
        r is Ok <==> versions.state_at(id@) is Some,
        r matches Ok(e) ==> e.wf() && Some(e.below()) == versions.state_at(id@) && e.model()
            == e.below().model(),
{
}

/// Where the changes of a layer are made to a state that is as the one below
/// the layer, that state is as the layer reads it afterwards.
pub proof fn applying_makes_it_as_read<C: Chain>(d: Diff, base: &mut C, r: Result<()>)
    requires
        d.wf(),
        old(base).wf(),
        old(base).model() == d.below().model(),
        call_ensures(Diff::apply::<C>, (&d, base), r),
    ensures
        r is Ok,
        final(base).wf(),
        final(base).model() == d.model(),
{
    d.reads_over_parent();
}

/// Of a state, the current stakers and the pending ones are listed, each once.
pub proof fn stakers_are_listed<C: Chain>(
    c: &C,
    current: Vec<Staker>,
    pending: Vec<Staker>,
    i: int,
    j: int,
)
    requires
        c.wf(),
        call_ensures(C::current_stakers, (c,), current),
        call_ensures(C::pending_stakers, (c,), pending),
        0 <= i < j < current@.len(),
    ensures
        lists(c.model().current.set, current@),
        lists(c.model().pending.set, pending@),
        current@[i].next_time <= current@[j].next_time,
        current@[i] != current@[j],
{
    let keys = current@.map_values(|s: Staker| crate::state::staker::order_key(s));
    assert(crate::order::lex_lt(keys[i], keys[j]));
    crate::state::staker::lemma_order_key(current@[i], current@[j]);
    crate::order::lemma_lex_antisymmetric(keys[i], keys[j]);
}

/// The active L1 validators that a state lists are in it, have weight and
/// something left to pay with, and whoever pays out earlier comes first. None
/// that has both is left out.
pub proof fn active_l1_validators_are_listed<C: Chain>(
    c: &C,
    list: Vec<L1Validator>,
    i: int,
    j: int,
    k: Seq<u8>,
)
    requires
        c.wf(),
        call_ensures(C::active_l1_validators, (c,), list),
        0 <= i < j < list@.len(),
        c.model().l1_validators.contains_key(k),
    ensures
        list@[i].weight > 0 && list@[i].end_accumulated_fee > 0,
        list@[i].end_accumulated_fee <= list@[j].end_accumulated_fee,
        list@[i]@ != list@[j]@,
        c.model().l1_validators.contains_key(list@[i].validation_id@)
            && c.model().l1_validators[list@[i].validation_id@] == list@[i]@,
        ({
            let v = c.model().l1_validators[k];
            v.weight > 0 && v.end_accumulated_fee > 0 ==> exists|n: int|
                0 <= n < list@.len() && (#[trigger] list@[n])@ == v
        }),
{
    let views = crate::state::chain::l1_views(list@);
    let keys = views.map_values(|v: L1View| crate::state::l1_validator::l1_order_key(v));
    assert(views[i] == list@[i]@ && views[j] == list@[j]@);
    assert(crate::order::lex_lt(keys[i], keys[j]));
    crate::order::lemma_lex_antisymmetric(keys[i], keys[j]);
    crate::state::l1_validator::l1_order_is_total(views[i], views[j], views[i]);
    crate::state::l1_validator::l1_order_is_total(views[j], views[i], views[j]);
    if list@[j].end_accumulated_fee < list@[i].end_accumulated_fee {
        crate::state::l1_validator::lemma_l1_order_key(views[j], views[i]);
    }
    let v = c.model().l1_validators[k];
    if v.weight > 0 && v.end_accumulated_fee > 0 {
        let n = choose|n: int| 0 <= n < views.len() && #[trigger] views[n] == v;
        assert(list@[n]@ == v);
    }
}

/// The weight of a subnet's L1 validators takes in each validator of the subnet
/// once, and none of another.
pub proof fn l1_weights_add_up<C: Chain>(c: &C, less: &C, subnet: Id, k: Seq<u8>, w: u64, without: u64)
    requires
        c.wf(),
        less.wf(),
        c.model().l1_validators.contains_key(k),
        less.model().l1_validators == c.model().l1_validators.remove(k),
        call_ensures(C::weight_of_l1_validators, (c, subnet), Ok(w)),
        call_ensures(C::weight_of_l1_validators, (less, subnet), Ok(without)),
    ensures
        c.model().l1_validators[k].subnet_id == subnet@ ==> w == without
            + c.model().l1_validators[k].weight,
        c.model().l1_validators[k].subnet_id != subnet@ ==> w == without,
        c.model().l1_validators.len() == 1 ==> without == 0,
{
    c.model_is_coherent();
    lemma_subnet_weight_remove(c.model().l1_validators, k, subnet@);
}

} // verus!
