//! Sets of stakers: what putting and deleting does to what is listed and found.
use vstd::prelude::*;

use crate::order::lex_lt;
use crate::state::chain::ChainView;
use crate::state::staker::{lemma_member_key, lemma_order_key, member_key, order_key, Priority, Staker};
use crate::state::stakers::{lists, member_of, StakersView};

verus! {

/// The groups of stakers in their order, from the first.
pub open spec fn groups() -> Seq<Priority> {
    seq![
        Priority::PrimaryNetworkDelegatorApricotPending,
        Priority::PrimaryNetworkValidatorPending,
        Priority::PrimaryNetworkDelegatorBanffPending,
        Priority::SubnetPermissionlessValidatorPending,
        Priority::SubnetPermissionlessDelegatorPending,
        Priority::SubnetPermissionedValidatorPending,
        Priority::SubnetPermissionedValidatorCurrent,
        Priority::SubnetPermissionlessDelegatorCurrent,
        Priority::SubnetPermissionlessValidatorCurrent,
        Priority::PrimaryNetworkDelegatorCurrent,
        Priority::PrimaryNetworkValidatorCurrent,
    ]
}

/// Every group stands at its own place of the order. The last five are current,
/// and three of these are groups of validators.
pub proof fn groups_are_in_order(i: int, j: int)
    requires
        0 <= i < 11,
        0 <= j < 11,
    ensures
        groups()[i].ordinal() == i + 1,
        i < j <==> groups()[i].ordinal() < groups()[j].ordinal(),
        groups()[i].current() <==> i >= 6,
        groups()[i].current_validator() <==> i == 6 || i == 8 || i == 10,
{
}

/// Stakers are told apart by the time of their next move, their group and their
/// transaction, and by nothing else.
pub proof fn places_are_told_apart(a: Staker, b: Staker)
    ensures
        order_key(a) == order_key(b) <==> a.next_time == b.next_time && a.priority == b.priority
            && a.tx_id@ == b.tx_id@,
        lex_lt(order_key(a), order_key(b)) <==> a.next_time < b.next_time || (a.next_time
            == b.next_time && (a.priority.ordinal() < b.priority.ordinal() || (a.priority
            == b.priority && lex_lt(a.tx_id@, b.tx_id@)))),
{
    lemma_order_key(a, b);
}

/// Nodes are told apart by their subnet and their node id, and by nothing else.
pub proof fn members_are_told_apart(a: Staker, b: Staker)
    ensures
        member_of(a) == member_of(b) <==> a.subnet_id@ == b.subnet_id@ && a.node_id@ == b.node_id@,
{
    assert(a.subnet_id@.len() == 32 && b.subnet_id@.len() == 32);
    lemma_member_key(a.subnet_id@, a.node_id@, b.subnet_id@, b.node_id@);
}

/// A list of stakers holds each of them, none of them twice, and those that move
/// first come first.
pub proof fn lists_are_complete_and_in_order(
    v: StakersView,
    list: Seq<Staker>,
    s: Staker,
    i: int,
    j: int,
)
    requires
        lists(v.set, list),
        0 <= i < j < list.len(),
    ensures
        list.contains(s) ==> v.set.contains_key(order_key(s)) && v.set[order_key(s)] == s,
        v.set.contains_key(order_key(s)) && v.set[order_key(s)] == s ==> list.contains(s),
        list[i].next_time <= list[j].next_time,
        list[i].next_time == list[j].next_time ==> list[i].priority.ordinal()
            <= list[j].priority.ordinal(),
        list[i].next_time == list[j].next_time && list[i].priority == list[j].priority ==> lex_lt(
            list[i].tx_id@,
            list[j].tx_id@,
        ),
{
    let keys = list.map_values(|s: Staker| order_key(s));
    assert(lex_lt(keys[i], keys[j]));
    lemma_order_key(list[i], list[j]);
    if list.contains(s) {
        let x = list.index_of(s);
        assert(list[x] == s);
    }
    if v.set.contains_key(order_key(s)) && v.set[order_key(s)] == s {
        let x = choose|x: int| 0 <= x < list.len() && order_key(#[trigger] list[x]) == order_key(s);
        assert(list[x] == s);
    }
}

proof fn lemma_listed(v: StakersView, list: Seq<Staker>, s: Staker)
    requires
        lists(v.set, list),
    ensures
        list.contains(s) <==> v.set.contains_key(order_key(s)) && v.set[order_key(s)] == s,
{
    if list.contains(s) {
        let x = list.index_of(s);
        assert(list[x] == s);
    }
    if v.set.contains_key(order_key(s)) && v.set[order_key(s)] == s {
        let x = choose|x: int| 0 <= x < list.len() && order_key(#[trigger] list[x]) == order_key(s);
        assert(list[x] == s);
    }
}

/// Once a delegator was deleted, no staker is listed in its place; every other
/// one is listed as before, and no validator is lost or found.
pub proof fn a_deleted_delegator_is_gone(
    v: StakersView,
    s: Staker,
    before: Seq<Staker>,
    after: Seq<Staker>,
    x: Staker,
)
    requires
        lists(v.set, before),
        lists(v.delete_delegator(s).set, after),
    ensures
        x.next_time == s.next_time && x.priority == s.priority && x.tx_id@ == s.tx_id@
            ==> !after.contains(x),
        !(x.next_time == s.next_time && x.priority == s.priority && x.tx_id@ == s.tx_id@) ==> (
        after.contains(x) <==> before.contains(x)),
        v.delete_delegator(s).validators == v.validators,
{
    lemma_order_key(x, s);
    lemma_listed(v, before, x);
    lemma_listed(v.delete_delegator(s), after, x);
}

/// Once a delegator was put, it is listed, unless another staker had its place;
/// every other one is listed as before, and no validator is lost or found.
pub proof fn a_new_delegator_is_listed(
    v: StakersView,
    s: Staker,
    before: Seq<Staker>,
    after: Seq<Staker>,
    x: Staker,
)
    requires
        lists(v.set, before),
        lists(v.put_delegator(s).set, after),
    ensures
        (forall|y: Staker| #[trigger]
            before.contains(y) ==> !(y.next_time == s.next_time && y.priority == s.priority
                && y.tx_id@ == s.tx_id@)) ==> after.contains(s),
        before.contains(x) ==> after.contains(x),
        after.contains(x) ==> before.contains(x) || x == s,
        v.put_delegator(s).validators == v.validators,
{
    lemma_listed(v, before, x);
    lemma_listed(v.put_delegator(s), after, x);
    lemma_listed(v.put_delegator(s), after, s);
    if v.set.contains_key(order_key(s)) {
        let i = choose|i: int|
            0 <= i < before.len() && order_key(#[trigger] before[i]) == order_key(s);
        lemma_order_key(before[i], s);
        assert(before.contains(before[i]));
    }
}

/// To put a delegator that was not there and to delete it again changes
/// nothing.
pub proof fn deleting_undoes_putting(v: StakersView, s: Staker)
    requires
        !v.set.contains_key(order_key(s)),
    ensures
        v.put_delegator(s) != v,
        v.put_delegator(s).delete_delegator(s) == v,
{
    assert(v.put_delegator(s).set.contains_key(order_key(s)));
    assert(v.put_delegator(s).delete_delegator(s) =~= v);
}

/// Once a validator was put, its node is found with it and with no other, and
/// other nodes are found as before. It is listed, unless a staker of another
/// kind had its place; the one that its node had before is not listed any more,
/// and every other staker is listed as before.
pub proof fn a_new_validator_is_found_and_listed(
    v: StakersView,
    s: Staker,
    before: Seq<Staker>,
    after: Seq<Staker>,
    x: Staker,
)
    requires
        lists(v.set, before),
        lists(v.put_validator(s).set, after),
    ensures
        v.put_validator(s).validators.contains_key(member_key(s.subnet_id@, s.node_id@)),
        v.put_validator(s).validators[member_key(s.subnet_id@, s.node_id@)] == s,
        !(x.subnet_id@ == s.subnet_id@ && x.node_id@ == s.node_id@) ==> ({
            let k = member_key(x.subnet_id@, x.node_id@);
            &&& v.put_validator(s).validators.contains_key(k) == v.validators.contains_key(k)
            &&& v.validators.contains_key(k) ==> v.put_validator(s).validators[k] == v.validators[k]
        }),
        !v.set.contains_key(order_key(s)) ==> after.contains(s),
        after.contains(x) ==> before.contains(x) || x == s,
        ({
            let k = member_key(s.subnet_id@, s.node_id@);
            let replaced = v.validators.contains_key(k) && order_key(v.validators[k]) == order_key(
                x,
            );
            &&& !replaced && before.contains(x) ==> after.contains(x)
            &&& replaced && x != s ==> !after.contains(x)
        }),
{
    assert(x.subnet_id@.len() == 32 && s.subnet_id@.len() == 32);
    lemma_member_key(x.subnet_id@, x.node_id@, s.subnet_id@, s.node_id@);
    lemma_listed(v, before, x);
    lemma_listed(v.put_validator(s), after, x);
    lemma_listed(v.put_validator(s), after, s);
}

/// Once a validator was deleted, its node is not found, and no staker is listed
/// in its place; other nodes are found and other stakers are listed as before.
pub proof fn a_deleted_validator_is_gone(
    v: StakersView,
    s: Staker,
    before: Seq<Staker>,
    after: Seq<Staker>,
    x: Staker,
)
    requires
        lists(v.set, before),
        lists(v.delete_validator(s).set, after),
    ensures
        !v.delete_validator(s).validators.contains_key(member_key(s.subnet_id@, s.node_id@)),
        !(x.subnet_id@ == s.subnet_id@ && x.node_id@ == s.node_id@) ==> ({
            let k = member_key(x.subnet_id@, x.node_id@);
            &&& v.delete_validator(s).validators.contains_key(k) == v.validators.contains_key(k)
            &&& v.validators.contains_key(k) ==> v.delete_validator(s).validators[k]
                == v.validators[k]
        }),
        x.next_time == s.next_time && x.priority == s.priority && x.tx_id@ == s.tx_id@
            ==> !after.contains(x),
        !(x.next_time == s.next_time && x.priority == s.priority && x.tx_id@ == s.tx_id@) ==> (
        after.contains(x) <==> before.contains(x)),
{
    assert(x.subnet_id@.len() == 32 && s.subnet_id@.len() == 32);
    lemma_member_key(x.subnet_id@, x.node_id@, s.subnet_id@, s.node_id@);
    lemma_order_key(x, s);
    lemma_listed(v, before, x);
    lemma_listed(v.delete_validator(s), after, x);
}

/// There are no stakers at the start.
pub proof fn no_stakers_at_the_start(s: Staker)
    ensures
        !StakersView::empty().set.contains_key(order_key(s)),
        !StakersView::empty().validators.contains_key(member_of(s)),
{
}

/// What is done to the current stakers is done to them as to any set of
/// stakers, and leaves everything else of the chain alone.
pub proof fn current_stakers_change_alone(m: ChainView, s: Staker)
    ensures
        m.put_current_validator(s) == (ChainView { current: m.current.put_validator(s), ..m }),
        m.put_current_delegator(s) == (ChainView { current: m.current.put_delegator(s), ..m }),
        m.delete_current_delegator(s) == (ChainView {
            current: m.current.delete_delegator(s),
            ..m
        }),
        m.delete_current_validator(s).current == m.current.delete_validator(s),
        (ChainView {
            current: m.current,
            staking_info: m.staking_info,
            ..m.delete_current_validator(s)
        }) == m,
        forall|k: Seq<u8>|
            k != member_of(s) && m.staking_info.contains_key(k)
                ==> #[trigger] m.delete_current_validator(s).staking_info[k] == m.staking_info[k],
        m.delete_current_validator(s).staking_info[member_of(s)].delegatee_reward == 0,
        m.delete_current_validator(s).staking_info[member_of(s)].accrued_validation_rewards == 0,
        m.delete_current_validator(s).staking_info[member_of(s)].accrued_delegatee_rewards == 0,
        m.delete_current_validator(s).staking_info[member_of(s)].auto_compound_reward_shares == 0,
        m.delete_current_validator(s).staking_info[member_of(s)].next_period == 0,
{
}

/// What is done to the pending stakers is done to them as to any set of
/// stakers, and leaves everything else of the chain alone.
pub proof fn pending_stakers_change_alone(m: ChainView, s: Staker)
    ensures
        m.put_pending_validator(s) == (ChainView { pending: m.pending.put_validator(s), ..m }),
        m.put_pending_delegator(s) == (ChainView { pending: m.pending.put_delegator(s), ..m }),
        m.delete_pending_delegator(s) == (ChainView {
            pending: m.pending.delete_delegator(s),
            ..m
        }),
        m.delete_pending_validator(s) == (ChainView {
            pending: m.pending.delete_validator(s),
            ..m
        }),
{
}

} // verus!
