//! The state of the chain: what is set is read, what is put is found, and
//! nothing else changes.
use vstd::prelude::*;

use crate::error::{DbError, Error, Result};
use crate::ids::{Id, NodeId};
use crate::laws::stakers::{a_deleted_delegator_is_gone, a_deleted_validator_is_gone, a_new_delegator_is_listed, a_new_validator_is_found_and_listed};
use crate::state::chain::{Chain, ChainView, GasState};
use crate::state::l1_validator::L1Validator;
use crate::state::metadata_validator::StakingInfo;
use crate::state::staker::{member_key, order_key, Staker};
use crate::state::stakers::lists;

verus! {

/// Once a current delegator was deleted, no current staker is listed in its place, and
/// every other staker is listed as before.
pub proof fn a_deleted_current_delegator_is_not_listed<C: Chain>(
    c: &mut C,
    s: &Staker,
    before: Seq<Staker>,
    after: Seq<Staker>,
    x: Staker,
)
    requires
        old(c).wf(),
        call_ensures(C::delete_current_delegator, (c, s), ()),
        lists(old(c).model().current.set, before),
        lists(final(c).model().current.set, after),
    ensures
        x.next_time == s.next_time && x.priority == s.priority && x.tx_id@ == s.tx_id@
            ==> !after.contains(x),
        !(x.next_time == s.next_time && x.priority == s.priority && x.tx_id@ == s.tx_id@) ==> (
        after.contains(x) <==> before.contains(x)),
        final(c).model().current.validators == old(c).model().current.validators,
        final(c).model().pending == old(c).model().pending,
        (ChainView { current: old(c).model().current, ..final(c).model() }) == old(c).model(),
{
    a_deleted_delegator_is_gone(old(c).model().current, *s, before, after, x);
}

/// Once a current delegator was put, it is listed, unless another staker had its
/// place; every other staker is listed as before.
pub proof fn a_new_current_delegator_is_listed<C: Chain>(
    c: &mut C,
    s: Staker,
    before: Seq<Staker>,
    after: Seq<Staker>,
    x: Staker,
)
    requires
        old(c).wf(),
        call_ensures(C::put_current_delegator, (c, s), ()),
        lists(old(c).model().current.set, before),
        lists(final(c).model().current.set, after),
    ensures
        (forall|y: Staker| #[trigger]
            before.contains(y) ==> !(y.next_time == s.next_time && y.priority == s.priority
                && y.tx_id@ == s.tx_id@)) ==> after.contains(s),
        before.contains(x) ==> after.contains(x),
        after.contains(x) ==> before.contains(x) || x == s,
        (ChainView { current: old(c).model().current, ..final(c).model() }) == old(c).model(),
        final(c).model().current.validators == old(c).model().current.validators,
{
    a_new_delegator_is_listed(old(c).model().current, s, before, after, x);
}

/// A validator joins the current set just where its group belongs there. Its node is
/// then found with it, other nodes as before; it is listed in place of the one
/// that its node had, and every other staker is listed as before.
pub proof fn a_new_current_validator_is_found<C: Chain>(
    c: &mut C,
    s: Staker,
    r: Result<()>,
    before: Seq<Staker>,
    after: Seq<Staker>,
    x: Staker,
)
    requires
        old(c).wf(),
        call_ensures(C::put_current_validator, (c, s), r),
        lists(old(c).model().current.set, before),
        lists(final(c).model().current.set, after),
    ensures
        r is Ok <==> s.priority.ordinal() >= 7,
        r is Err ==> r == Err::<(), Error>(Error::WrongTxType) && final(c).model()
            == old(c).model(),
        r is Ok ==> {
            let k = member_key(s.subnet_id@, s.node_id@);
            let j = member_key(x.subnet_id@, x.node_id@);
            let was = old(c).model().current.validators;
            let now = final(c).model().current.validators;
            let replaced = was.contains_key(k) && order_key(was[k]) == order_key(x);
            &&& now.contains_key(k) && now[k] == s
            &&& !(x.subnet_id@ == s.subnet_id@ && x.node_id@ == s.node_id@) ==> (
            now.contains_key(j) == was.contains_key(j) && (was.contains_key(j) ==> now[j]
                == was[j]))
            &&& !old(c).model().current.set.contains_key(order_key(s)) ==> after.contains(s)
            &&& after.contains(x) ==> before.contains(x) || x == s
            &&& !replaced && before.contains(x) ==> after.contains(x)
            &&& replaced && x != s ==> !after.contains(x)
            &&& (ChainView { current: old(c).model().current, ..final(c).model() }) == old(c).model()
        },
{
    if r is Ok {
        a_new_validator_is_found_and_listed(old(c).model().current, s, before, after, x);
    }
}

/// Once a current validator was deleted, its node is not found and no staker is
/// listed in its place; other nodes are found and other stakers are listed as
/// before.
pub proof fn a_deleted_current_validator_is_not_found<C: Chain>(
    c: &mut C,
    s: &Staker,
    before: Seq<Staker>,
    after: Seq<Staker>,
    x: Staker,
)
    requires
        old(c).wf(),
        call_ensures(C::delete_current_validator, (c, s), ()),
        lists(old(c).model().current.set, before),
        lists(final(c).model().current.set, after),
    ensures
        ({
            let j = member_key(x.subnet_id@, x.node_id@);
            let was = old(c).model().current.validators;
            let now = final(c).model().current.validators;
            let in_place = x.next_time == s.next_time && x.priority == s.priority && x.tx_id@
                == s.tx_id@;
            &&& !now.contains_key(member_key(s.subnet_id@, s.node_id@))
            &&& !(x.subnet_id@ == s.subnet_id@ && x.node_id@ == s.node_id@) ==> (
            now.contains_key(j) == was.contains_key(j) && (was.contains_key(j) ==> now[j]
                == was[j]))
            &&& in_place ==> !after.contains(x)
            &&& !in_place ==> (after.contains(x) <==> before.contains(x))
            &&& (ChainView {
                current: old(c).model().current,
                staking_info: old(c).model().staking_info,
                ..final(c).model()
            }) == old(c).model()
        }),
{
    a_deleted_validator_is_gone(old(c).model().current, *s, before, after, x);
}

/// Once a pending delegator was deleted, no pending staker is listed in its place, and
/// every other staker is listed as before.
pub proof fn a_deleted_pending_delegator_is_not_listed<C: Chain>(
    c: &mut C,
    s: &Staker,
    before: Seq<Staker>,
    after: Seq<Staker>,
    x: Staker,
)
    requires
        old(c).wf(),
        call_ensures(C::delete_pending_delegator, (c, s), ()),
        lists(old(c).model().pending.set, before),
        lists(final(c).model().pending.set, after),
    ensures
        x.next_time == s.next_time && x.priority == s.priority && x.tx_id@ == s.tx_id@
            ==> !after.contains(x),
        !(x.next_time == s.next_time && x.priority == s.priority && x.tx_id@ == s.tx_id@) ==> (
        after.contains(x) <==> before.contains(x)),
        final(c).model().pending.validators == old(c).model().pending.validators,
        final(c).model().current == old(c).model().current,
        (ChainView { pending: old(c).model().pending, ..final(c).model() }) == old(c).model(),
{
    a_deleted_delegator_is_gone(old(c).model().pending, *s, before, after, x);
}

/// Once a pending delegator was put, it is listed, unless another staker had its
/// place; every other staker is listed as before.
pub proof fn a_new_pending_delegator_is_listed<C: Chain>(
    c: &mut C,
    s: Staker,
    before: Seq<Staker>,
    after: Seq<Staker>,
    x: Staker,
)
    requires
        old(c).wf(),
        call_ensures(C::put_pending_delegator, (c, s), ()),
        lists(old(c).model().pending.set, before),
        lists(final(c).model().pending.set, after),
    ensures
        (forall|y: Staker| #[trigger]
            before.contains(y) ==> !(y.next_time == s.next_time && y.priority == s.priority
                && y.tx_id@ == s.tx_id@)) ==> after.contains(s),
        before.contains(x) ==> after.contains(x),
        after.contains(x) ==> before.contains(x) || x == s,
        (ChainView { pending: old(c).model().pending, ..final(c).model() }) == old(c).model(),
        final(c).model().pending.validators == old(c).model().pending.validators,
{
    a_new_delegator_is_listed(old(c).model().pending, s, before, after, x);
}

/// A validator joins the pending set just where its group belongs there. Its node is
/// then found with it, other nodes as before; it is listed in place of the one
/// that its node had, and every other staker is listed as before.
pub proof fn a_new_pending_validator_is_found<C: Chain>(
    c: &mut C,
    s: Staker,
    r: Result<()>,
    before: Seq<Staker>,
    after: Seq<Staker>,
    x: Staker,
)
    requires
        old(c).wf(),
        call_ensures(C::put_pending_validator, (c, s), r),
        lists(old(c).model().pending.set, before),
        lists(final(c).model().pending.set, after),
    ensures
        r is Ok <==> !(s.priority.ordinal() >= 7),
        r is Err ==> r == Err::<(), Error>(Error::WrongTxType) && final(c).model()
            == old(c).model(),
        r is Ok ==> {
            let k = member_key(s.subnet_id@, s.node_id@);
            let j = member_key(x.subnet_id@, x.node_id@);
            let was = old(c).model().pending.validators;
            let now = final(c).model().pending.validators;
            let replaced = was.contains_key(k) && order_key(was[k]) == order_key(x);
            &&& now.contains_key(k) && now[k] == s
            &&& !(x.subnet_id@ == s.subnet_id@ && x.node_id@ == s.node_id@) ==> (
            now.contains_key(j) == was.contains_key(j) && (was.contains_key(j) ==> now[j]
                == was[j]))
            &&& !old(c).model().pending.set.contains_key(order_key(s)) ==> after.contains(s)
            &&& after.contains(x) ==> before.contains(x) || x == s
            &&& !replaced && before.contains(x) ==> after.contains(x)
            &&& replaced && x != s ==> !after.contains(x)
            &&& (ChainView { pending: old(c).model().pending, ..final(c).model() }) == old(c).model()
        },
{
    if r is Ok {
        a_new_validator_is_found_and_listed(old(c).model().pending, s, before, after, x);
    }
}

/// Once a pending validator was deleted, its node is not found and no staker is
/// listed in its place; other nodes are found and other stakers are listed as
/// before.
pub proof fn a_deleted_pending_validator_is_not_found<C: Chain>(
    c: &mut C,
    s: &Staker,
    before: Seq<Staker>,
    after: Seq<Staker>,
    x: Staker,
)
    requires
        old(c).wf(),
        call_ensures(C::delete_pending_validator, (c, s), ()),
        lists(old(c).model().pending.set, before),
        lists(final(c).model().pending.set, after),
    ensures
        ({
            let j = member_key(x.subnet_id@, x.node_id@);
            let was = old(c).model().pending.validators;
            let now = final(c).model().pending.validators;
            let in_place = x.next_time == s.next_time && x.priority == s.priority && x.tx_id@
                == s.tx_id@;
            &&& !now.contains_key(member_key(s.subnet_id@, s.node_id@))
            &&& !(x.subnet_id@ == s.subnet_id@ && x.node_id@ == s.node_id@) ==> (
            now.contains_key(j) == was.contains_key(j) && (was.contains_key(j) ==> now[j]
                == was[j]))
            &&& in_place ==> !after.contains(x)
            &&& !in_place ==> (after.contains(x) <==> before.contains(x))
            &&& (ChainView {
                pending: old(c).model().pending,
                staking_info: old(c).model().staking_info,
                ..final(c).model()
            }) == old(c).model()
        }),
{
    a_deleted_validator_is_gone(old(c).model().pending, *s, before, after, x);
}

/// The time that was set is read, and nothing else changed.
pub proof fn the_time_is_read_as_set<C: Chain>(c: &mut C, after: &C, v: u64, r: u64)
    requires
        old(c).wf(),
        *after == *final(c),
        after.wf(),
        call_ensures(C::set_timestamp, (c, v), ()),
        call_ensures(C::timestamp, (after,), r),
    ensures
        r == v,
        (ChainView { timestamp: old(c).model().timestamp, ..after.model() }) == old(c).model(),
{
}

/// The gas state that was set is read, and nothing else changed.
pub proof fn the_gas_state_is_read_as_set<C: Chain>(c: &mut C, after: &C, v: GasState, r: GasState)
    requires
        old(c).wf(),
        *after == *final(c),
        after.wf(),
        call_ensures(C::set_fee_state, (c, v), ()),
        call_ensures(C::fee_state, (after,), r),
    ensures
        r == v,
        (ChainView { fee_state: old(c).model().fee_state, ..after.model() }) == old(c).model(),
{
}

/// The excess that was set is read, and nothing else changed.
pub proof fn the_excess_is_read_as_set<C: Chain>(c: &mut C, after: &C, v: u64, r: u64)
    requires
        old(c).wf(),
        *after == *final(c),
        after.wf(),
        call_ensures(C::set_l1_validator_excess, (c, v), ()),
        call_ensures(C::l1_validator_excess, (after,), r),
    ensures
        r == v,
        (ChainView { l1_validator_excess: old(c).model().l1_validator_excess, ..after.model() }) == old(c).model(),
{
}

/// The fees that were set are read, and nothing else changed.
pub proof fn the_fees_are_read_as_set<C: Chain>(c: &mut C, after: &C, v: u64, r: u64)
    requires
        old(c).wf(),
        *after == *final(c),
        after.wf(),
        call_ensures(C::set_accrued_fees, (c, v), ()),
        call_ensures(C::accrued_fees, (after,), r),
    ensures
        r == v,
        (ChainView { accrued_fees: old(c).model().accrued_fees, ..after.model() }) == old(c).model(),
{
}

/// The supply that was set is read, that of other subnets as before, and nothing
/// else changed.
pub proof fn the_supply_is_read_as_set<C: Chain>(
    c: &mut C,
    after: &C,
    subnet: Id,
    v: u64,
    other: Id,
    r: Result<u64>,
)
    requires
        old(c).wf(),
        *after == *final(c),
        after.wf(),
        call_ensures(C::set_current_supply, (c, subnet, v), ()),
        call_ensures(C::current_supply, (after, other), r),
    ensures
        r is Ok,
        other@ == subnet@ ==> r->Ok_0 == v,
        other@ != subnet@ ==> r->Ok_0 == old(c).model().supply[other@],
        (ChainView { supply: old(c).model().supply, ..after.model() }) == old(c).model(),
{
}

/// An output that was added is read, others as before, and nothing else changed.
pub proof fn an_output_is_read_as_added<C: Chain>(
    c: &mut C,
    after: &C,
    id: Id,
    v: Vec<u8>,
    other: Id,
    r: Result<Vec<u8>>,
)
    requires
        old(c).wf(),
        *after == *final(c),
        after.wf(),
        call_ensures(C::add_utxo, (c, id, v), ()),
        call_ensures(C::get_utxo, (after, other), r),
    ensures
        other@ == id@ ==> r is Ok && r->Ok_0@ == v@,
        other@ != id@ ==> (r is Ok <==> old(c).model().utxos.contains_key(other@)) && (r is Ok
            ==> r->Ok_0@ == old(c).model().utxos[other@]),
        r matches Err(e) ==> e == Error::Database(DbError::NotFound),
        (ChainView { utxos: old(c).model().utxos, ..after.model() }) == old(c).model(),
{
}

/// A transaction that was stored is read, others as before, and nothing else
/// changed.
pub proof fn a_transaction_is_read_as_stored<C: Chain>(
    c: &mut C,
    after: &C,
    id: Id,
    v: Vec<u8>,
    other: Id,
    r: Result<Vec<u8>>,
)
    requires
        old(c).wf(),
        *after == *final(c),
        after.wf(),
        call_ensures(C::add_tx, (c, id, v), ()),
        call_ensures(C::get_tx, (after, other), r),
    ensures
        other@ == id@ ==> r is Ok && r->Ok_0@ == v@,
        other@ != id@ ==> (r is Ok <==> old(c).model().txs.contains_key(other@)) && (r is Ok
            ==> r->Ok_0@ == old(c).model().txs[other@]),
        r matches Err(e) ==> e == Error::Database(DbError::NotFound),
        (ChainView { txs: old(c).model().txs, ..after.model() }) == old(c).model(),
{
}

/// An owner that was set is read, others as before, and nothing else changed.
pub proof fn an_owner_is_read_as_set<C: Chain>(
    c: &mut C,
    after: &C,
    id: Id,
    v: Vec<u8>,
    other: Id,
    r: Result<Vec<u8>>,
)
    requires
        old(c).wf(),
        *after == *final(c),
        after.wf(),
        call_ensures(C::set_subnet_owner, (c, id, v), ()),
        call_ensures(C::get_subnet_owner, (after, other), r),
    ensures
        other@ == id@ ==> r is Ok && r->Ok_0@ == v@,
        other@ != id@ ==> (r is Ok <==> old(c).model().subnet_owners.contains_key(other@)) && (r is Ok
            ==> r->Ok_0@ == old(c).model().subnet_owners[other@]),
        r matches Err(e) ==> e == Error::Database(DbError::NotFound),
        (ChainView { subnet_owners: old(c).model().subnet_owners, ..after.model() }) == old(c).model(),
{
}

/// A manager that was set is read, others as before, and nothing else changed.
pub proof fn a_manager_is_read_as_set<C: Chain>(
    c: &mut C,
    after: &C,
    id: Id,
    v: Vec<u8>,
    other: Id,
    r: Result<Vec<u8>>,
)
    requires
        old(c).wf(),
        *after == *final(c),
        after.wf(),
        call_ensures(C::set_subnet_manager, (c, id, v), ()),
        call_ensures(C::get_subnet_manager, (after, other), r),
    ensures
        other@ == id@ ==> r is Ok && r->Ok_0@ == v@,
        other@ != id@ ==> (r is Ok <==> old(c).model().subnet_managers.contains_key(other@)) && (r is Ok
            ==> r->Ok_0@ == old(c).model().subnet_managers[other@]),
        r matches Err(e) ==> e == Error::Database(DbError::NotFound),
        (ChainView { subnet_managers: old(c).model().subnet_managers, ..after.model() }) == old(c).model(),
{
}

/// An output that was deleted is not read any more, others are as before, and
/// nothing else changed.
pub proof fn a_deleted_output_is_gone<C: Chain>(
    c: &mut C,
    after: &C,
    id: Id,
    other: Id,
    r: Result<Vec<u8>>,
)
    requires
        old(c).wf(),
        *after == *final(c),
        after.wf(),
        call_ensures(C::delete_utxo, (c, id), ()),
        call_ensures(C::get_utxo, (after, other), r),
    ensures
        other@ == id@ ==> r == Err::<Vec<u8>, Error>(Error::Database(DbError::NotFound)),
        other@ != id@ ==> (r is Ok <==> old(c).model().utxos.contains_key(other@)) && (r is Ok
            ==> r->Ok_0@ == old(c).model().utxos[other@]),
        (ChainView { utxos: old(c).model().utxos, ..after.model() }) == old(c).model(),
{
}

/// An L1 validator that was put is read, in place of the one with its id; others
/// are as before, and nothing else changed.
pub proof fn an_l1_validator_is_read_as_put<C: Chain>(
    c: &mut C,
    after: &C,
    v: L1Validator,
    put: Result<()>,
    other: Id,
    r: Result<L1Validator>,
)
    requires
        old(c).wf(),
        *after == *final(c),
        after.wf(),
        call_ensures(C::put_l1_validator, (c, v), put),
        call_ensures(C::get_l1_validator, (after, other), r),
    ensures
        put is Ok,
        other@ == v@.validation_id ==> r is Ok && r->Ok_0@ == v@,
        other@ != v@.validation_id ==> (r is Ok <==> old(c).model().l1_validators.contains_key(
            other@,
        )) && (r is Ok ==> r->Ok_0@ == old(c).model().l1_validators[other@]),
        r matches Err(e) ==> e == Error::Database(DbError::NotFound),
        (ChainView { l1_validators: old(c).model().l1_validators, ..after.model() })
            == old(c).model(),
{
}

/// A subnet that was added is the last of the subnets, unless it was there
/// already, and nothing else changed.
pub proof fn a_subnet_is_added_once<C: Chain>(c: &mut C, after: &C, subnet: Id, r: Vec<Id>)
    requires
        old(c).wf(),
        *after == *final(c),
        after.wf(),
        call_ensures(C::add_subnet, (c, subnet), ()),
        call_ensures(C::subnets, (after,), r),
    ensures
        ({
            let was = old(c).model().subnets;
            let now = Seq::new(r@.len(), |i: int| r@[i]@);
            &&& was.contains(subnet@) ==> now == was
            &&& !was.contains(subnet@) ==> now == was.push(subnet@)
        }),
        (ChainView { subnets: old(c).model().subnets, ..after.model() }) == old(c).model(),
{
    assert(Seq::new(r@.len(), |i: int| r@[i]@) =~= crate::state::chain::id_bytes(r@));
}

/// A chain that was added is the last of its subnet's, unless it was there
/// already. Other subnets have the chains that they had, and nothing else
/// changed.
pub proof fn a_chain_is_added_once<C: Chain>(
    c: &mut C,
    after: &C,
    subnet: Id,
    chain: Id,
    other: Id,
    r: Vec<Id>,
)
    requires
        old(c).wf(),
        *after == *final(c),
        after.wf(),
        call_ensures(C::add_chain, (c, subnet, chain), ()),
        call_ensures(C::chains, (after, other), r),
    ensures
        ({
            let was = old(c).model().chains[other@];
            let now = Seq::new(r@.len(), |i: int| r@[i]@);
            &&& other@ != subnet@ || was.contains(chain@) ==> now == was
            &&& other@ == subnet@ && !was.contains(chain@) ==> now == was.push(chain@)
        }),
        (ChainView { chains: old(c).model().chains, ..after.model() }) == old(c).model(),
{
    assert(Seq::new(r@.len(), |i: int| r@[i]@) =~= crate::state::chain::id_bytes(r@));
    old(c).model_is_coherent();
    assert(old(c).model().chains.contains_key(other@));
}

/// An output that a staker was rewarded with is the last of its rewards. Others
/// have the rewards that they had, and nothing else changed.
pub proof fn a_reward_is_added_behind_the_others<C: Chain>(
    c: &mut C,
    after: &C,
    tx_id: Id,
    utxo: Vec<u8>,
    other: Id,
    r: Vec<Vec<u8>>,
)
    requires
        old(c).wf(),
        *after == *final(c),
        after.wf(),
        call_ensures(C::add_reward_utxo, (c, tx_id, utxo), ()),
        call_ensures(C::get_reward_utxos, (after, other), r),
    ensures
        ({
            let was = old(c).model().reward_utxos[other@];
            let now = Seq::new(r@.len(), |i: int| r@[i]@);
            &&& other@ != tx_id@ ==> now == was
            &&& other@ == tx_id@ ==> now == was.push(utxo@)
        }),
        (ChainView { reward_utxos: old(c).model().reward_utxos, ..after.model() })
            == old(c).model(),
{
    assert(Seq::new(r@.len(), |i: int| r@[i]@) =~= crate::state::chain::blob_bytes(r@));
    old(c).model_is_coherent();
    assert(old(c).model().reward_utxos.contains_key(other@));
}

/// What was renewed of a validator is read, where there is one; others are as
/// before, and nothing else changed.
pub proof fn a_renewal_is_read_as_set<C: Chain>(
    c: &mut C,
    after: &C,
    subnet: Id,
    node: NodeId,
    info: StakingInfo,
    set: Result<()>,
    r: Result<StakingInfo>,
    found: Result<Staker>,
)
    requires
        old(c).wf(),
        *after == *final(c),
        after.wf(),
        call_ensures(C::set_staking_info, (c, subnet, node, info), set),
        call_ensures(C::get_staking_info, (after, subnet, node), r),
        call_ensures(C::get_current_validator, (after, subnet, node), found),
    ensures
        set is Ok <==> found is Ok,
        set is Ok ==> r == Ok::<StakingInfo, Error>(info),
        set is Err ==> set == Err::<(), Error>(Error::Database(DbError::NotFound))
            && after.model() == old(c).model(),
        r is Ok <==> found is Ok,
        (ChainView { staking_info: old(c).model().staking_info, ..after.model() })
            == old(c).model(),
        forall|k: Seq<u8>|
            k != subnet@ + node@ && old(c).model().staking_info.contains_key(k)
                ==> #[trigger] after.model().staking_info[k] == old(c).model().staking_info[k],
{
}

} // verus!
