use std::cell::{Cell, RefCell};
use std::rc::Rc;

use ava_platformvm::block::apricot::{
    ApricotAbortBlock, ApricotAtomicBlock, ApricotCommitBlock, ApricotProposalBlock,
    ApricotStandardBlock, CommonBlock,
};
use ava_platformvm::block::banff::{
    BanffAbortBlock, BanffCommitBlock, BanffProposalBlock, BanffStandardBlock,
};
use ava_platformvm::block::builder::assemble::{next_staker_to_reward, TARGET_BLOCK_SIZE};
use ava_platformvm::block::builder::build_block;
use ava_platformvm::block::builder::pack::pack_decision_txs;
use ava_platformvm::block::builder::time::{next_block_time, unix_secs};
use ava_platformvm::block::codec::Codec;
use ava_platformvm::block::executor::verify::{
    proposal_tx, resolve_staker_tx, rewarded_staker_tx, Outcome, Verification, Work,
};
use ava_platformvm::block::executor::{BlockAcceptanceNotifier, BlockManager, NoopNotifier};
use ava_platformvm::block::{parse, Block, BlockBody};
use ava_platformvm::codec::CodecError;
use ava_platformvm::collections::ordmap::{Dup, OrdMap};
use ava_platformvm::crypto::digest_id;
use ava_platformvm::error::{DbError, Error};
use ava_platformvm::ids::{Id, NodeId, ShortId};
use ava_platformvm::signer::{Empty, Signer};
use ava_platformvm::state::chain::Chain;
use ava_platformvm::state::diff::Diff;
use ava_platformvm::state::diff_iterators::{
    apply_validator_weight_diffs, DiffValidator, ValidatorSet,
};
use ava_platformvm::state::staker::{Priority, Staker};
use ava_platformvm::state::state::State;
use ava_platformvm::txs::components::{
    BaseTx, Output, OutputOwners, Owner, TransferOutput, TransferableOutput,
};
use ava_platformvm::txs::tx::Tx;
use ava_platformvm::txs::type_ids;
use ava_platformvm::txs::unsigned::{
    AddPermissionlessValidatorTx, RewardValidatorTx, UnsignedTx, Validator,
};
use ava_platformvm::wire::{List, Manager};

const AVAX: u64 = 1_000_000_000;
const AVAX_ASSET: [u8; 32] = [0x42; 32];
const SECOND: i128 = 1_000_000_000;

fn genesis_id() -> Id {
    Id::from([0xAB; 32])
}

fn owners(addr: u8) -> OutputOwners {
    OutputOwners {
        locktime: 0,
        threshold: 1,
        addrs: List { items: vec![ShortId::from([addr; 20])] },
    }
}

fn base_tx(memo: &[u8]) -> BaseTx {
    BaseTx {
        network_id: 0,
        blockchain_id: Id::empty(),
        outs: List { items: vec![] },
        ins: List { items: vec![] },
        memo: memo.to_vec(),
    }
}

#[derive(Clone, Default)]
struct RecordingNotifier {
    count: Rc<Cell<u64>>,
    last: Rc<RefCell<Option<Id>>>,
}

impl BlockAcceptanceNotifier for RecordingNotifier {
    fn on_accepted_block_id(&self, block_id: Id) {
        self.count.set(self.count.get() + 1);
        *self.last.borrow_mut() = Some(block_id);
    }
}

fn genesis_state(ts: u64, supply: u64) -> State {
    let mut s = State::new();
    s.set_timestamp(ts);
    s.set_current_supply(Id::empty(), supply);
    s.set_last_accepted(genesis_id());
    s.set_height(0);
    s
}

fn manager(state: State, notifier: RecordingNotifier) -> BlockManager<RecordingNotifier> {
    BlockManager::new(state, Codec(), notifier)
}

fn staker_tx(weight: u64) -> Tx {
    let v = AddPermissionlessValidatorTx {
        base: base_tx(&[]),
        validator: Validator { node_id: NodeId::empty(), start: 0, end: 0, wght: 0 },
        subnet: Id::empty(),
        signer: Signer::Empty(Empty),
        stake_outs: List {
            items: vec![TransferableOutput {
                asset_id: Id::from(AVAX_ASSET),
                out: Output::Transfer(TransferOutput { amt: weight, owners: owners(1) }),
            }],
        },
        validator_rewards_owner: Owner::Secp256k1(owners(1)),
        delegator_rewards_owner: Owner::Secp256k1(owners(1)),
        delegation_shares: 0,
    };
    let mut tx = Tx::new(UnsignedTx::AddPermissionlessValidator(v));
    tx.initialize(&Codec()).expect("init staker tx");
    tx
}

fn reward_tx(staker: Id) -> Tx {
    Tx::new(UnsignedTx::RewardValidator(RewardValidatorTx { tx_id: staker }))
}

fn proposal_block(time: u64, staker: Id) -> Block {
    let mut blk = Block::new(BlockBody::BanffProposal(BanffProposalBlock {
        time,
        transactions: List { items: vec![] },
        apricot: ApricotProposalBlock {
            common: CommonBlock { parent_id: genesis_id(), height: 1 },
            tx: reward_tx(staker),
        },
    }));
    blk.initialize(&Codec()).expect("init proposal");
    blk
}

fn standard_block(time: u64, parent_id: Id, height: u64, txs: Vec<Tx>) -> Block {
    let mut b = Block::new(BlockBody::BanffStandard(BanffStandardBlock {
        time,
        apricot: ApricotStandardBlock {
            common: CommonBlock { parent_id, height },
            transactions: List { items: txs },
        },
    }));
    b.initialize(&Codec()).expect("init standard");
    b
}

// A state with one validator that is due to leave, and the block that proposes
// to reward it, executed both ways: either way the validator leaves. Where the
// proposal is committed its reward is paid out, else the reward leaves the
// supply.
fn proposal_fixture(
    notifier: &RecordingNotifier,
) -> (BlockManager<RecordingNotifier>, Block, Id, NodeId, u64, u64) {
    let node = NodeId::from([9; 20]);
    let end: u64 = 3_000;
    let weight = 2_000 * AVAX;
    let reward: u64 = 38_944;

    let tx = staker_tx(weight);
    let staker_tx_id = tx.id();

    let mut state = genesis_state(end, 100_000_000 * AVAX);
    let staker = Staker::new_current(
        staker_tx_id,
        node,
        None,
        Id::empty(),
        weight,
        1_000,
        end,
        reward,
        Priority::PrimaryNetworkValidatorCurrent,
    );
    state.put_current_validator(staker).expect("put current");
    state.add_tx(staker_tx_id, tx.bytes().to_vec());
    let supply_before = state.current_supply(Id::empty()).expect("supply");

    let mut mgr = manager(state, notifier.clone());
    let proposal = proposal_block(3_000, staker_tx_id);
    let mut run = match mgr.verify(&proposal).expect("verify proposal") {
        Verification::Proposal(run) => run,
        _ => panic!("a proposal is executed both ways"),
    };
    assert_eq!(run.time(), Some(3_000));
    let parent = mgr.get_state_for_verify(proposal.parent_id()).expect("parent");
    let rewarded = resolve_staker_tx(mgr.codec(), &parent, staker_tx_id).expect("the staker's tx");
    assert_eq!(rewarded.stake.items.len(), 1);
    let (on_commit, on_abort) = run.changes_mut();
    for d in [&mut *on_commit, &mut *on_abort] {
        d.set_timestamp(3_000);
        let s = d.get_current_validator(Id::empty(), node).expect("staker");
        d.delete_current_validator(&s);
    }
    on_commit.add_reward_utxo(staker_tx_id, vec![1, 2, 3]);
    on_abort.set_current_supply(Id::empty(), supply_before - reward);
    run.time_advanced();
    mgr.finish(&proposal, Outcome::Proposal(run, true));
    (mgr, proposal, staker_tx_id, node, weight, supply_before)
}

#[test]
fn block_oracle_proposal_options_and_commit_accept() {
    let notifier = RecordingNotifier::default();
    let (mut mgr, proposal, staker_tx_id, node, weight, supply_before) =
        proposal_fixture(&notifier);

    let (preferred, alternate) = mgr.options(&proposal).expect("options");
    assert!(matches!(preferred.body(), BlockBody::BanffCommit(_)));
    assert!(matches!(alternate.body(), BlockBody::BanffAbort(_)));
    assert_eq!(preferred.parent_id(), proposal.id());
    assert_eq!(alternate.parent_id(), proposal.id());
    assert_eq!(preferred.height(), 2);

    assert!(matches!(mgr.verify(&preferred).expect("verify commit"), Verification::Done));
    assert!(matches!(mgr.verify(&alternate).expect("verify abort"), Verification::Done));
    mgr.accept(&proposal).expect("accept proposal");
    assert_eq!(mgr.last_accepted(), proposal.id());

    mgr.accept(&preferred).expect("accept commit");

    let s = mgr.state();
    assert!(s.get_current_validator(Id::empty(), node).is_err());
    assert_eq!(s.current_supply(Id::empty()).expect("supply"), supply_before);
    assert_eq!(s.get_reward_utxos(staker_tx_id).len(), 1);

    assert_eq!(mgr.last_accepted(), preferred.id());
    assert_eq!(s.height(), 2);
    assert_eq!(s.last_accepted(), preferred.id());
    assert_eq!(s.get_block_id_at_height(2), Some(preferred.id()));
    assert!(s.get_block(preferred.id()).is_ok());

    assert_eq!(notifier.count.get(), 1);
    assert_eq!(*notifier.last.borrow(), Some(preferred.id()));

    let store = s.weight_diff_store();
    let mut set: ValidatorSet = OrdMap::new();
    apply_validator_weight_diffs(store, &mut set, 2, 1, Id::empty()).expect("apply diffs");
    assert_eq!(set.get(&node).map(|v| v.weight), Some(weight));
}

#[test]
fn block_oracle_abort_accept_unmints_reward() {
    let notifier = RecordingNotifier::default();
    let (mut mgr, proposal, staker_tx_id, node, _weight, supply_before) =
        proposal_fixture(&notifier);
    let reward = 38_944;

    let (_commit, abort) = mgr.options(&proposal).expect("options");
    mgr.verify(&abort).expect("verify abort");
    mgr.accept(&proposal).expect("accept proposal");
    mgr.accept(&abort).expect("accept abort");

    let s = mgr.state();
    assert!(s.get_current_validator(Id::empty(), node).is_err());
    assert_eq!(s.current_supply(Id::empty()).expect("supply"), supply_before - reward);
    assert!(s.get_reward_utxos(staker_tx_id).is_empty());
    assert_eq!(mgr.last_accepted(), abort.id());
    assert_eq!(s.height(), 2);
}

#[test]
fn accept_writes_diffs_flushes_state_and_writes_height_diffs() {
    let node = NodeId::from([5; 20]);
    let weight = 1_000 * AVAX;

    let state = genesis_state(1_000, 100_000_000 * AVAX);
    let notifier = RecordingNotifier::default();
    let mut mgr = manager(state, notifier.clone());

    let blk = standard_block(1_000, genesis_id(), 1, vec![]);
    let mut run = match mgr.verify(&blk).expect("verify") {
        Verification::Standard(run) => run,
        _ => panic!("a standard block is executed"),
    };
    run.changes_mut()
        .put_current_validator(Staker::new_current(
            Id::from([7; 32]),
            node,
            None,
            Id::empty(),
            weight,
            1_000,
            9_000,
            0,
            Priority::PrimaryNetworkValidatorCurrent,
        ))
        .expect("put current in diff");
    run.done(&blk, Ok(())).expect("time");
    mgr.finish(&blk, Outcome::Standard(run));
    assert_eq!(mgr.cached(blk.id()).expect("kept").timestamp, 1_000);

    mgr.accept(&blk).expect("accept standard");

    let s = mgr.state();
    let got = s.get_current_validator(Id::empty(), node).expect("validator");
    assert_eq!(got.weight, weight);

    assert_eq!(mgr.last_accepted(), blk.id());
    assert_eq!(s.last_accepted(), blk.id());
    assert_eq!(s.height(), 1);
    assert_eq!(s.get_block_id_at_height(1), Some(blk.id()));
    assert!(s.get_block(blk.id()).is_ok());

    assert_eq!(notifier.count.get(), 1);
    assert_eq!(*notifier.last.borrow(), Some(blk.id()));

    let store = s.weight_diff_store();
    let mut set: ValidatorSet = OrdMap::new();
    set.insert(node, DiffValidator { weight, public_key: None });
    apply_validator_weight_diffs(store, &mut set, 1, 0, Id::empty()).expect("apply diffs");
    assert!(!set.contains(&node));
}

#[test]
fn accept_writes_diffs_non_verifying_bootstrap_path() {
    let state = genesis_state(1_000, 100_000_000 * AVAX);
    let notifier = RecordingNotifier::default();
    let mut mgr = manager(state, notifier.clone());

    let blk = standard_block(2_000, genesis_id(), 1, vec![]);
    let mut run = match mgr.verify(&blk).expect("verify") {
        Verification::Standard(run) => run,
        _ => panic!("a standard block is executed"),
    };
    match run.work(mgr.codec(), &blk).expect("work") {
        Work::AdvanceTime(t) => run.changes_mut().set_timestamp(t),
        other => panic!("unexpected work {other:?}"),
    }
    run.done(&blk, Ok(())).expect("done");
    assert!(matches!(run.work(mgr.codec(), &blk), Ok(Work::Nothing)));
    mgr.accept_non_verifying(&blk, Outcome::Standard(run)).expect("bootstrap accept");

    let s = mgr.state();
    assert_eq!(mgr.last_accepted(), blk.id());
    assert_eq!(s.height(), 1);
    assert_eq!(s.timestamp(), 2_000);
    assert_eq!(notifier.count.get(), 1);
}

#[test]
fn executed_transactions_are_stored_with_the_block() {
    let mut mgr = BlockManager::new(genesis_state(1_000, 0), Codec(), NoopNotifier);
    let mut tx = Tx::new(UnsignedTx::Base(base_tx(&[1, 2])));
    tx.initialize(&Codec()).expect("init");
    let blk = standard_block(1_001, genesis_id(), 1, vec![tx.dup()]);
    let mut run = match mgr.verify(&blk).expect("verify") {
        Verification::Standard(run) => run,
        _ => panic!("a standard block is executed"),
    };
    assert!(matches!(run.work(mgr.codec(), &blk), Ok(Work::AdvanceTime(1_001))));
    run.changes_mut().set_timestamp(1_001);
    run.done(&blk, Ok(())).expect("time");
    let expected = Codec().marshal(&tx.unsigned).expect("unsigned bytes");
    match run.work(mgr.codec(), &blk).expect("work") {
        Work::Execute(b) => assert_eq!(b, expected),
        other => panic!("unexpected work {other:?}"),
    }
    // A transaction that fails leaves the run as it was.
    assert_eq!(run.done(&blk, Err(Error::Overflow)), Err(Error::Overflow));
    assert_eq!(run.executed(), 0);
    assert_eq!(run.changes().timestamp(), 1_001);
    run.done(&blk, Ok(())).expect("tx");
    assert!(matches!(run.work(mgr.codec(), &blk), Ok(Work::Nothing)));
    mgr.finish(&blk, Outcome::Standard(run));
    mgr.accept(&blk).expect("accept");
    assert_eq!(mgr.state().get_tx(tx.id()), Ok(tx.bytes().to_vec()));
}

#[test]
fn blocks_that_do_not_follow_are_refused() {
    let mut mgr = BlockManager::new(genesis_state(1_000, 0), Codec(), NoopNotifier);
    let not_found = Error::Database(DbError::NotFound);

    let orphan = standard_block(1_000, Id::from([1; 32]), 1, vec![]);
    assert_eq!(mgr.verify(&orphan).err(), Some(not_found));
    let high = standard_block(1_000, genesis_id(), 2, vec![]);
    assert_eq!(mgr.verify(&high).err(), Some(Error::WrongTxType));
    let late = standard_block(u64::MAX, genesis_id(), 1, vec![]);
    assert_eq!(mgr.verify(&late).err(), Some(Error::Overflow));
    let choice = Block::new_banff_commit(&Codec(), 1_000, genesis_id(), 1).expect("commit");
    assert_eq!(mgr.verify(&choice).err(), Some(Error::Database(DbError::NotFound)));
    let mut atomic = Block::new(BlockBody::ApricotAtomic(ApricotAtomicBlock {
        common: CommonBlock { parent_id: genesis_id(), height: 1 },
        tx: reward_tx(Id::empty()),
    }));
    atomic.initialize(&Codec()).expect("init");
    assert_eq!(mgr.verify(&atomic).err(), Some(Error::WrongTxType));
    assert!(mgr.accept(&orphan).is_err());
    assert_eq!(mgr.options(&orphan).err(), Some(Error::WrongTxType));
    // Accepting without asking takes no block that is refused either.
    assert_eq!(
        mgr.accept_non_verifying(&orphan, Outcome::Nothing).err(),
        Some(Error::Database(DbError::NotFound))
    );
    assert_eq!(
        mgr.accept_non_verifying(&high, Outcome::Nothing).err(),
        Some(Error::WrongTxType)
    );
    assert_eq!(mgr.last_accepted(), genesis_id());
    assert_eq!(mgr.state().height(), 0);
}

#[test]
fn a_proposal_that_was_not_verified_has_no_options() {
    let mgr = BlockManager::new(genesis_state(1_000, 0), Codec(), NoopNotifier);
    let proposal = proposal_block(1_000, Id::from([1; 32]));
    assert!(proposal.is_proposal());
    assert_eq!(mgr.options(&proposal).err(), Some(Error::WrongTxType));
}

fn accept_with<F: FnOnce(&mut Diff)>(
    mgr: &mut BlockManager<NoopNotifier>,
    time: u64,
    parent: Id,
    height: u64,
    change: F,
) -> Id {
    let blk = standard_block(time, parent, height, vec![]);
    let mut run = match mgr.verify(&blk).expect("verify") {
        Verification::Standard(run) => run,
        _ => panic!("a standard block is executed"),
    };
    change(run.changes_mut());
    run.done(&blk, Ok(())).expect("time");
    mgr.accept_non_verifying(&blk, Outcome::Standard(run)).expect("accept");
    blk.id()
}

#[test]
fn undoing_several_blocks_gives_the_earlier_validators() {
    let staker = |node: u8, weight: u64| {
        Staker::new_current(
            Id::from([node; 32]),
            NodeId::from([node; 20]),
            None,
            Id::empty(),
            weight,
            1_000,
            9_000,
            0,
            Priority::PrimaryNetworkValidatorCurrent,
        )
    };
    let mut mgr = BlockManager::new(genesis_state(1_000, 0), Codec(), NoopNotifier);
    let one = accept_with(&mut mgr, 1_000, genesis_id(), 1, |d| {
        d.put_current_validator(staker(1, 10)).expect("put");
    });
    let two = accept_with(&mut mgr, 1_000, one, 2, |d| {
        d.put_current_validator(staker(2, 20)).expect("put");
        d.delete_current_validator(&staker(1, 10));
    });
    accept_with(&mut mgr, 1_000, two, 3, |d| {
        d.put_current_validator(staker(1, 35)).expect("put");
    });
    let s = mgr.state();
    assert_eq!(s.height(), 3);
    let weights = |set: &ValidatorSet| {
        (1..3u8)
            .map(|n| set.get(&NodeId::from([n; 20])).map(|v| v.weight))
            .collect::<Vec<Option<u64>>>()
    };
    for (height, expected) in [
        (2, vec![None, Some(20)]),
        (1, vec![Some(10), None]),
        (0, vec![None, None]),
    ] {
        let mut set: ValidatorSet = OrdMap::new();
        set.insert(NodeId::from([1; 20]), DiffValidator { weight: 35, public_key: None });
        set.insert(NodeId::from([2; 20]), DiffValidator { weight: 20, public_key: None });
        apply_validator_weight_diffs(s.weight_diff_store(), &mut set, 3, height + 1, Id::empty())
            .expect("undo");
        assert_eq!(weights(&set), expected);
    }
}

#[test]
fn a_rejected_block_is_forgotten() {
    let mut mgr = BlockManager::new(genesis_state(1_000, 0), Codec(), NoopNotifier);
    let blk = standard_block(1_000, genesis_id(), 1, vec![]);
    let mut run = match mgr.verify(&blk).expect("verify") {
        Verification::Standard(run) => run,
        _ => panic!("a standard block is executed"),
    };
    run.done(&blk, Ok(())).expect("time");
    mgr.finish(&blk, Outcome::Standard(run));
    let child = standard_block(1_000, blk.id(), 2, vec![]);
    assert!(mgr.verify(&child).is_ok());
    assert_eq!(mgr.parent_height(blk.id()), Ok(1));
    mgr.reject(&blk);
    assert!(mgr.verify(&child).is_err());
    assert!(mgr.cached(blk.id()).is_none());
    assert_eq!(mgr.timestamp(blk.id()), 1_000);
    assert!(mgr.new_diff(blk.id()).is_err());
}

#[test]
fn options_follow_the_preference() {
    let mut mgr = BlockManager::new(genesis_state(1_000, 0), Codec(), NoopNotifier);
    let proposal = proposal_block(1_000, Id::from([1; 32]));
    assert!(proposal.is_proposal());
    assert!(proposal_tx(&proposal).is_some());
    let mut run = match mgr.verify(&proposal).expect("verify") {
        Verification::Proposal(run) => run,
        _ => panic!("a proposal is executed both ways"),
    };
    run.time_advanced();
    mgr.finish(&proposal, Outcome::Proposal(run, false));
    let (preferred, alternate) = mgr.options(&proposal).expect("options");
    assert!(matches!(preferred.body(), BlockBody::BanffAbort(_)));
    assert!(matches!(alternate.body(), BlockBody::BanffCommit(_)));
    assert_eq!(preferred.banff_timestamp(), Some(1_000));
}

#[test]
fn pchain_block_hash() {
    let c = Codec();
    let parent = Id::from([0x10; 32]);
    let commit = Block::new_apricot_commit(&c, parent, 5).expect("commit");
    let abort = Block::new_apricot_abort(&c, parent, 6).expect("abort");
    let standard = standard_block(7, parent, 8, vec![]);

    let mut commit_bytes = vec![0, 0, 0, 0, 0, 2];
    commit_bytes.extend_from_slice(&[0x10; 32]);
    commit_bytes.extend_from_slice(&5u64.to_be_bytes());
    let mut abort_bytes = vec![0, 0, 0, 0, 0, 1];
    abort_bytes.extend_from_slice(&[0x10; 32]);
    abort_bytes.extend_from_slice(&6u64.to_be_bytes());
    let mut standard_bytes = vec![0, 0, 0, 0, 0, 32];
    standard_bytes.extend_from_slice(&7u64.to_be_bytes());
    standard_bytes.extend_from_slice(&[0x10; 32]);
    standard_bytes.extend_from_slice(&8u64.to_be_bytes());
    standard_bytes.extend_from_slice(&[0, 0, 0, 0]);

    for (made, bytes, type_id, height) in [
        (commit, commit_bytes, 2u32, 5u64),
        (abort, abort_bytes, 1, 6),
        (standard, standard_bytes, 32, 8),
    ] {
        assert_eq!(made.bytes(), bytes.as_slice());
        let blk = parse(&c, &bytes).expect("parse block");
        assert_eq!(blk.id(), digest_id(&bytes));
        assert_eq!(blk.id(), made.id());
        assert_eq!(blk.type_id(), type_id);
        assert_eq!(blk.parent_id(), parent);
        assert_eq!(blk.height(), height);
        assert!(blk.txs().is_empty());
        assert_eq!(c.marshal(blk.body()).expect("marshal again"), bytes);
        assert_eq!(blk, made);
    }
}

#[test]
fn block_discriminants_match_txs_constants() {
    let common = || CommonBlock { parent_id: Id::empty(), height: 0 };
    let none = || List { items: vec![] };
    let tx = || reward_tx(Id::empty());
    let cases: Vec<(BlockBody, u32)> = vec![
        (
            BlockBody::ApricotProposal(ApricotProposalBlock { common: common(), tx: tx() }),
            type_ids::TYPE_ID_APRICOT_PROPOSAL_BLOCK,
        ),
        (
            BlockBody::ApricotAbort(ApricotAbortBlock { common: common() }),
            type_ids::TYPE_ID_APRICOT_ABORT_BLOCK,
        ),
        (
            BlockBody::ApricotCommit(ApricotCommitBlock { common: common() }),
            type_ids::TYPE_ID_APRICOT_COMMIT_BLOCK,
        ),
        (
            BlockBody::ApricotStandard(ApricotStandardBlock {
                common: common(),
                transactions: none(),
            }),
            type_ids::TYPE_ID_APRICOT_STANDARD_BLOCK,
        ),
        (
            BlockBody::ApricotAtomic(ApricotAtomicBlock { common: common(), tx: tx() }),
            type_ids::TYPE_ID_APRICOT_ATOMIC_BLOCK,
        ),
        (
            BlockBody::BanffProposal(BanffProposalBlock {
                time: 0,
                transactions: none(),
                apricot: ApricotProposalBlock { common: common(), tx: tx() },
            }),
            type_ids::TYPE_ID_BANFF_PROPOSAL_BLOCK,
        ),
        (
            BlockBody::BanffAbort(BanffAbortBlock {
                time: 0,
                apricot: ApricotAbortBlock { common: common() },
            }),
            type_ids::TYPE_ID_BANFF_ABORT_BLOCK,
        ),
        (
            BlockBody::BanffCommit(BanffCommitBlock {
                time: 0,
                apricot: ApricotCommitBlock { common: common() },
            }),
            type_ids::TYPE_ID_BANFF_COMMIT_BLOCK,
        ),
        (
            BlockBody::BanffStandard(BanffStandardBlock {
                time: 0,
                apricot: ApricotStandardBlock { common: common(), transactions: none() },
            }),
            type_ids::TYPE_ID_BANFF_STANDARD_BLOCK,
        ),
    ];
    for (body, want) in &cases {
        assert_eq!(body.codec_type_id(), *want);
    }
}

#[test]
fn blocks_that_cannot_be_read_are_refused() {
    let c = Codec();
    let blk = proposal_block(3, Id::from([4; 32]));
    assert_eq!(parse(&c, blk.bytes()).expect("parse").bytes(), blk.bytes());
    let mut long = blk.bytes().to_vec();
    long.push(0);
    assert_eq!(parse(&c, &long).err(), Some(CodecError::ExtraSpace));
    assert_eq!(
        parse(&c, &blk.bytes()[..blk.bytes().len() - 1]).err(),
        Some(CodecError::InsufficientLength)
    );
    assert!(parse(&c, &[0, 0, 0, 0, 0, 99]).is_err());
    let small = Manager { max_size: 10 };
    assert_eq!(parse(&small, blk.bytes()).err(), Some(CodecError::TooBig));
}

fn tagged(tag: u8) -> Tx {
    let mut tx = Tx::new(UnsignedTx::Base(base_tx(&[tag])));
    tx.initialize(&Codec()).expect("init");
    tx
}

#[test]
fn transactions_are_packed_until_one_does_not_fit() {
    let one = tagged(1).bytes().len();
    let txs = || vec![tagged(1), tagged(2), tagged(3)];
    assert_eq!(pack_decision_txs(txs(), 2 * one).len(), 2);
    assert_eq!(pack_decision_txs(txs(), 3 * one).len(), 3);
    // The first one is taken whatever its size.
    assert_eq!(pack_decision_txs(txs(), one - 1).len(), 1);
    assert!(pack_decision_txs(vec![], one).is_empty());
    let kept = pack_decision_txs(txs(), TARGET_BLOCK_SIZE);
    assert_eq!(kept, txs());
}

#[test]
fn the_next_block_is_neither_early_nor_late() {
    let s = SECOND;
    let bound: u128 = 10_000_000_000;
    // The clock is ahead of the parent.
    assert_eq!(next_block_time(5 * s, 3 * s, 100 * s, bound), (5 * s, false));
    // The clock is behind the parent, within the bound and beyond it.
    assert_eq!(next_block_time(2 * s, 3 * s, 100 * s, bound), (3 * s, false));
    assert_eq!(next_block_time(2 * s, 50 * s, 100 * s, bound), (50 * s, false));
    // A change of stakers holds the time back.
    assert_eq!(next_block_time(5 * s, 3 * s, 4 * s, bound), (4 * s, true));
    assert_eq!(unix_secs(5 * SECOND + 999_999_999), 5);
    assert_eq!(unix_secs(-SECOND), 0);
}

#[test]
fn a_staker_is_rewarded_when_its_time_comes() {
    let mut s = State::new();
    let staker = Staker::new_current(
        Id::from([7; 32]),
        NodeId::from([5; 20]),
        None,
        Id::empty(),
        1,
        1_000,
        9_000,
        0,
        Priority::PrimaryNetworkValidatorCurrent,
    );
    s.put_current_validator(staker).expect("put");
    assert_eq!(next_staker_to_reward(8_999 * SECOND, &s), None);
    assert_eq!(next_staker_to_reward(9_000 * SECOND, &s), Some(Id::from([7; 32])));

    let blk = build_block(&Codec(), genesis_id(), 4, 9_000 * SECOND, false, &s, vec![tagged(1)])
        .expect("build");
    match blk.body() {
        BlockBody::BanffProposal(p) => {
            assert_eq!(p.time, 9_000);
            assert_eq!(p.apricot.common.height, 4);
            assert_eq!(
                p.apricot.tx.unsigned,
                UnsignedTx::RewardValidator(RewardValidatorTx { tx_id: Id::from([7; 32]) })
            );
        },
        other => panic!("unexpected block {other:?}"),
    }
}

#[test]
fn a_block_is_built_only_for_a_reason() {
    let s = State::new();
    let build = |force: bool, txs: Vec<Tx>| {
        build_block(&Codec(), genesis_id(), 4, 9_000 * SECOND, force, &s, txs)
    };
    assert_eq!(build(false, vec![]).err(), Some(Error::NoPendingBlocks));
    let forced = build(true, vec![]).expect("forced");
    assert!(forced.txs().is_empty());
    let blk = build(false, vec![tagged(1)]).expect("with a transaction");
    assert_eq!(blk.txs().len(), 1);
    assert_eq!(blk.banff_timestamp(), Some(9_000));
    assert_eq!(blk.parent_id(), genesis_id());
    assert_eq!(blk.height(), 4);
    assert_eq!(blk.id(), digest_id(blk.bytes()));
}

#[test]
fn only_validators_are_rewarded() {
    let r = rewarded_staker_tx(&staker_tx(7)).expect("a staker");
    assert_eq!(r.stake.items.len(), 1);
    assert!(rewarded_staker_tx(&tagged(1)).is_none());
    assert!(rewarded_staker_tx(&reward_tx(Id::empty())).is_none());
}
