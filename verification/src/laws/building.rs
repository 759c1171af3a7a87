//! Building blocks: who is rewarded, what is packed, and at what time.
use vstd::prelude::*;

use crate::block::block::Block;
use crate::block::body::BlockBodyView;
use crate::block::builder::assemble::{build_block, first_rewarded, next_staker_to_reward, tx_views};
use crate::block::builder::pack::{pack_count, pack_decision_txs, packed_txs_fit, size_of};
use crate::block::builder::time::{next_block_time, unix_secs, Moment, LAST_MOMENT};
use crate::crypto::sha256_digest;
use crate::error::{Error, Result};
use crate::ids::Id;
use crate::state::chain::Chain;
use crate::state::staker::{Priority, Staker};
use crate::state::stakers::lists;
use crate::state::validator_sets::lemma_listing;
use crate::txs::tx::Tx;
use crate::txs::unsigned::UnsignedTxView;
use crate::wire::Manager;

verus! {

proof fn lemma_first_rewarded(list: Seq<Staker>, i: int)
    requires
        0 <= i < list.len(),
        list[i].priority != Priority::SubnetPermissionedValidatorCurrent,
        forall|j: int|
            0 <= j < i ==> (#[trigger] list[j]).priority
                == Priority::SubnetPermissionedValidatorCurrent,
    ensures
        first_rewarded(list) == Some(list[i]),
    decreases i,
{
    if i > 0 {
        assert(list[0].priority == Priority::SubnetPermissionedValidatorCurrent);
        assert forall|j: int| 0 <= j < i - 1 implies (#[trigger] list.drop_first()[j]).priority
            == Priority::SubnetPermissionedValidatorCurrent by {
            assert(list.drop_first()[j] == list[j + 1]);
        }
        lemma_first_rewarded(list.drop_first(), i - 1);
    }
}

proof fn lemma_none_rewarded(list: Seq<Staker>)
    requires
        forall|j: int|
            0 <= j < list.len() ==> (#[trigger] list[j]).priority
                == Priority::SubnetPermissionedValidatorCurrent,
    ensures
        first_rewarded(list) is None,
    decreases list.len(),
{
    if list.len() > 0 {
        assert(list[0].priority == Priority::SubnetPermissionedValidatorCurrent);
        assert forall|j: int|
            0 <= j < list.drop_first().len() implies (#[trigger] list.drop_first()[j]).priority
            == Priority::SubnetPermissionedValidatorCurrent by {
            assert(list.drop_first()[j] == list[j + 1]);
        }
        lemma_none_rewarded(list.drop_first());
    }
}

/// The staker to reward is the first one listed that did not join its subnet by
/// permission, whatever else it is, and it is rewarded just when it moves. Where
/// there is no such staker, none is rewarded.
pub proof fn the_first_to_leave_is_rewarded<C: Chain>(
    state: &C,
    list: Seq<Staker>,
    t: Moment,
    r: Option<Id>,
    i: int,
)
    requires
        state.wf(),
        lists(state.model().current.set, list),
        call_ensures(next_staker_to_reward::<C>, (t, state), r),
    ensures
        (0 <= i < list.len() && list[i].priority != Priority::SubnetPermissionedValidatorCurrent
            && forall|j: int|
            0 <= j < i ==> (#[trigger] list[j]).priority
                == Priority::SubnetPermissionedValidatorCurrent) ==> {
            &&& r is Some <==> list[i].next_time * 1_000_000_000 == t
            &&& r matches Some(id) ==> id@ == list[i].tx_id@
        },
        (forall|j: int|
            0 <= j < list.len() ==> (#[trigger] list[j]).priority
                == Priority::SubnetPermissionedValidatorCurrent) ==> r is None,
{
    lemma_listing(state.model().current.set, list);
    if 0 <= i < list.len() && list[i].priority != Priority::SubnetPermissionedValidatorCurrent
        && forall|j: int|
        0 <= j < i ==> (#[trigger] list[j]).priority
            == Priority::SubnetPermissionedValidatorCurrent {
        lemma_first_rewarded(list, i);
    }
    if forall|j: int|
        0 <= j < list.len() ==> (#[trigger] list[j]).priority
            == Priority::SubnetPermissionedValidatorCurrent {
        lemma_none_rewarded(list);
    }
}

/// How many bytes the transactions take together.
pub open spec fn bytes_of_all(txs: Seq<Tx>) -> nat
    decreases txs.len(),
{
    if txs.len() == 0 {
        0
    } else {
        bytes_of_all(txs.drop_last()) + txs.last().cache().bytes.len()
    }
}

proof fn lemma_size_of(txs: Seq<Tx>, n: nat)
    requires
        n <= txs.len(),
    ensures
        size_of(txs, n) == bytes_of_all(txs.take(n as int)),
    decreases n,
{
    if n > 0 {
        lemma_size_of(txs, (n - 1) as nat);
        assert(txs.take(n as int).drop_last() =~= txs.take(n - 1));
    }
}

/// A block takes transactions in the order in which they came: one at least,
/// all of them that fit the cap together, and not one more.
pub proof fn as_much_is_packed_as_fits(txs: Vec<Tx>, cap: usize, r: Vec<Tx>)
    requires
        cap < usize::MAX,
        call_ensures(pack_decision_txs, (txs, cap), r),
    ensures
        r@.len() <= txs@.len(),
        forall|i: int| 0 <= i < r@.len() ==> #[trigger] r@[i] == txs@[i],
        txs@.len() > 0 ==> r@.len() > 0,
        r@.len() > 1 ==> bytes_of_all(r@) <= cap,
        r@.len() < txs@.len() ==> bytes_of_all(txs@.take((r@.len() + 1) as int)) > cap,
{
    let n = pack_count(txs@, cap, 0);
    packed_txs_fit(txs@, cap);
    lemma_size_of(txs@, n);
    if n < txs@.len() {
        lemma_size_of(txs@, n + 1);
    }
}

/// A block that is built stands behind its parent, at its height and time. It
/// proposes to reward the first staker to leave where that one leaves just then,
/// and holds the packed transactions either way. Nothing is built only where
/// there is neither a staker to reward nor a transaction, and the time need not
/// advance.
pub proof fn a_block_is_built_for_a_reason<C: Chain>(
    codec: &Manager,
    parent_id: Id,
    height: u64,
    t: Moment,
    force: bool,
    state: &C,
    txs: Vec<Tx>,
    r: Result<Block>,
    reward: Option<Id>,
    packed: Vec<Tx>,
)
    requires
        state.wf(),
        0 <= t <= LAST_MOMENT,
        call_ensures(build_block::<C>, (codec, parent_id, height, t, force, state, txs), r),
        call_ensures(next_staker_to_reward::<C>, (t, state), reward),
        call_ensures(pack_decision_txs, (txs, 131_072usize), packed),
    ensures
        r == Err::<Block, Error>(Error::NoPendingBlocks) <==> reward is None && txs@.len() == 0
            && !force,
        r matches Ok(b) ==> {
            let views = Seq::new(packed@.len(), |i: int| packed@[i]@);
            &&& reward is Some ==> {
                &&& b@ matches BlockBodyView::BanffProposal(p)
                &&& p.time == t / 1_000_000_000
                &&& p.apricot.common.parent_id == parent_id@
                &&& p.apricot.common.height == height
                &&& p.transactions == views
                &&& p.apricot.tx.unsigned matches UnsignedTxView::RewardValidator(u)
                &&& u.tx_id == reward->0@
                &&& p.apricot.tx.creds.len() == 0
            }
            &&& reward is None ==> {
                &&& b@ matches BlockBodyView::BanffStandard(p)
                &&& p.time == t / 1_000_000_000
                &&& p.apricot.common.parent_id == parent_id@
                &&& p.apricot.common.height == height
                &&& p.apricot.transactions == views
            }
            &&& b.cache().id == sha256_digest(b.cache().bytes)
        },
{
    packed_txs_fit(txs@, 131_072);
    let views = Seq::new(packed@.len(), |i: int| packed@[i]@);
    assert(tx_views(packed@) =~= views);
}

/// The next block is not before the later of now and its parent but where
/// stakers change earlier or it would be too far ahead, and then it is just
/// then. Whether stakers change earlier is told.
pub proof fn the_next_block_is_in_time(
    now: Moment,
    parent: Moment,
    change: Moment,
    bound: u128,
    r: (Moment, bool),
)
    requires
        -9_223_372_036_854_775_808_000_000_000 <= now <= LAST_MOMENT,
        call_ensures(next_block_time, (now, parent, change, bound), r),
    ensures
        r.0 <= change,
        r.0 <= now || r.0 <= parent,
        now + bound <= LAST_MOMENT ==> r.0 <= now + bound || r.0 <= parent,
        parent <= change ==> r.0 >= parent,
        r.1 <==> now > change || parent > change,
        r.0 < now && parent <= change ==> r.0 == change,
        !r.1 && parent <= now ==> r.0 == now,
        !r.1 && parent > now ==> r.0 == parent,
        r.1 && change <= now ==> r.0 == change,
{
}

/// Times are told in whole seconds, and none before 1970.
pub proof fn seconds_are_whole(t: Moment, r: u64)
    requires
        t <= LAST_MOMENT,
        call_ensures(unix_secs, (t,), r),
    ensures
        t < 0 ==> r == 0,
        t >= 0 ==> r * 1_000_000_000 <= t < (r + 1) * 1_000_000_000,
{
}

} // verus!
