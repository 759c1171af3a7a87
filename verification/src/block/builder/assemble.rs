//! Deciding which block to build, if any.
use vstd::prelude::*;

use crate::block::apricot::{ApricotProposalBlock, ApricotProposalBlockView, ApricotStandardBlock, ApricotStandardBlockView, CommonBlock, CommonBlockView};
use crate::block::banff::{BanffProposalBlock, BanffProposalBlockView, BanffStandardBlock, BanffStandardBlockView};
use crate::block::block::{unwritable, writable, Block, BlockCache};
use crate::block::body::{BlockBody, BlockBodyView};
use crate::block::builder::pack::{pack_count, pack_decision_txs};
use crate::block::builder::time::{seconds_of, unix_secs, Moment, LAST_MOMENT, NANOS_PER_SECOND};
use crate::error::{Error, Result};
use crate::ids::Id;
use crate::state::chain::Chain;
use crate::state::staker::{Priority, Staker};
use crate::state::validator_sets::{lemma_listing, listing};
use crate::txs::tx::{Tx, TxCache, TxView};
use crate::txs::unsigned::{CredentialView, RewardValidatorTx, RewardValidatorTxView, UnsignedTx, UnsignedTxView};
use crate::wire::{versioned, List, Manager};

verus! {

/// The bytes of transactions that a block stops at.
pub const TARGET_BLOCK_SIZE: usize = 131_072;

/// The first of the stakers that leaves by a reward: one that joined its subnet
/// by permission leaves without one.
pub open spec fn first_rewarded(list: Seq<Staker>) -> Option<Staker>
    decreases list.len(),
{
    if list.len() == 0 {
        None
    } else if list[0].priority == Priority::SubnetPermissionedValidatorCurrent {
        first_rewarded(list.drop_first())
    } else {
        Some(list[0])
    }
}

/// The staker to reward at the time `t`: the next that leaves by a reward, if it
/// leaves just then.
pub open spec fn reward_due(list: Seq<Staker>, t: Moment) -> Option<Seq<u8>> {
    match first_rewarded(list) {
        Some(s) => if s.next_time * NANOS_PER_SECOND == t {
            Some(s.tx_id@)
        } else {
            None
        },
        None => None,
    }
}

/// What each transaction holds.
pub open spec fn tx_views(txs: Seq<Tx>) -> Seq<TxView> {
    txs.map_values(|t: Tx| t@)
}

/// The transaction that rewards the staker `tx_id`.
pub open spec fn reward_tx(tx_id: Seq<u8>) -> TxView {
    TxView {
        unsigned: UnsignedTxView::RewardValidator(RewardValidatorTxView { tx_id }),
        creds: Seq::<CredentialView>::empty(),
    }
}

/// The body of the block to build, if there is one: a proposal to reward a
/// staker where one leaves at the time of the block, else the transactions
/// where there are any or the time has to advance.
pub open spec fn body_to_build(
    common: CommonBlockView,
    timestamp: Moment,
    force_advance_time: bool,
    stakers: Seq<Staker>,
    packed: Seq<Tx>,
) -> Option<BlockBodyView> {
    let time = seconds_of(timestamp) as u64;
    match reward_due(stakers, timestamp) {
        Some(tx_id) => Some(
            BlockBodyView::BanffProposal(
                BanffProposalBlockView {
                    time,
                    transactions: tx_views(packed),
                    apricot: ApricotProposalBlockView { common, tx: reward_tx(tx_id) },
                },
            ),
        ),
        None => if packed.len() == 0 && !force_advance_time {
            None
        } else {
            Some(
                BlockBodyView::BanffStandard(
                    BanffStandardBlockView {
                        time,
                        apricot: ApricotStandardBlockView {
                            common,
                            transactions: tx_views(packed),
                        },
                    },
                ),
            )
        },
    }
}

/// The staker to reward at `chain_timestamp`.
pub fn next_staker_to_reward<C: Chain>(chain_timestamp: Moment, parent_state: &C) -> (r: Option<
    Id,
>)
    requires
        parent_state.wf(),
    ensures
        r is Some <==> reward_due(
            listing(parent_state.model().current.set),
            chain_timestamp,
        ) is Some,
        r matches Some(id) ==> Some(id@) == reward_due(
            listing(parent_state.model().current.set),
            chain_timestamp,
        ),
{
    let list = parent_state.current_stakers();
    proof {
        lemma_listing(parent_state.model().current.set, list@);
    }
    let n: usize = list.len();
    let mut i: usize = 0;
    assert(list@.skip(0) =~= list@);
    while i < n
        invariant
            i <= n,
            n == list@.len(),
            list@ == listing(parent_state.model().current.set),
            first_rewarded(list@) == first_rewarded(list@.skip(i as int)),
        decreases n - i,
    {
        let s = list[i];
        if s.priority == Priority::SubnetPermissionedValidatorCurrent {
            assert(list@.skip(i as int).drop_first() =~= list@.skip(i + 1));
            i += 1;
        } else {
            if s.next_time as i128 * NANOS_PER_SECOND == chain_timestamp {
                return Some(s.tx_id);
            }
            return None;
        }
    }
    None
}

/// Builds the next block, behind `parent_id` at `height`. There is none where
/// no staker is to be rewarded, there are no transactions and the time does not
/// have to advance.
pub fn build_block<C: Chain>(
    codec: &Manager,
    parent_id: Id,
    height: u64,
    timestamp: Moment,
    force_advance_time: bool,
    parent_state: &C,
    decision_txs: Vec<Tx>,
) -> (r: Result<Block>)
    requires
        parent_state.wf(),
        timestamp <= LAST_MOMENT,
    ensures
        ({
            let packed = decision_txs@.take(
                pack_count(decision_txs@, TARGET_BLOCK_SIZE, 0) as int,
            );
            match body_to_build(
                CommonBlockView { parent_id: parent_id@, height },
                timestamp,
                force_advance_time,
                listing(parent_state.model().current.set),
                packed,
            ) {
                Some(v) => if writable(v, codec.max_size as nat) {
                    &&& r is Ok
                    &&& r->Ok_0@ == v
                    &&& r->Ok_0.cache() == BlockCache::of(versioned::<BlockBody>(v))
                    &&& r->Ok_0.body.tx_list().take(packed.len() as int) == packed
                    &&& v is BanffProposal ==> r->Ok_0.body.tx_list().last().cache()
                        == TxCache::none()
                } else {
                    r == Err::<Block, Error>(Error::Codec(unwritable(v)))
                },
                None => r == Err::<Block, Error>(Error::NoPendingBlocks),
            }
        }),
{
    let block_txs = pack_decision_txs(decision_txs, TARGET_BLOCK_SIZE);
    let ghost packed = block_txs@;
    let time = unix_secs(timestamp);
    if let Some(tx_id) = next_staker_to_reward(timestamp, parent_state) {
        let tx = Tx::new(UnsignedTx::RewardValidator(RewardValidatorTx { tx_id }));
        let mut blk = Block::new(
            BlockBody::BanffProposal(
                BanffProposalBlock {
                    time,
                    transactions: List { items: block_txs },
                    apricot: ApricotProposalBlock { common: CommonBlock { parent_id, height }, tx },
                },
            ),
        );
        assert(blk.body.tx_list().take(packed.len() as int) =~= packed);
        return match blk.initialize(codec) {
            Ok(()) => Ok(blk),
            Err(e) => Err(Error::Codec(e)),
        };
    }
    if block_txs.len() == 0 && !force_advance_time {
        return Err(Error::NoPendingBlocks);
    }
    let mut blk = Block::new(
        BlockBody::BanffStandard(
            BanffStandardBlock {
                time,
                apricot: ApricotStandardBlock {
                    common: CommonBlock { parent_id, height },
                    transactions: List { items: block_txs },
                },
            },
        ),
    );
    assert(blk.body.tx_list().take(packed.len() as int) =~= packed);
    match blk.initialize(codec) {
        Ok(()) => Ok(blk),
        Err(e) => Err(Error::Codec(e)),
    }
}

} // verus!
