use std::cmp::Ordering;
use std::sync::Arc;

use ava_platformvm::codec::CodecError;
use ava_platformvm::collections::ordmap::Dup;
use ava_platformvm::error::{DbError, Error};
use ava_platformvm::ids::{Id, NodeId, ShortId};
use ava_platformvm::state::chain::{Chain, GasState};
use ava_platformvm::state::diff::{Diff, Parent};
use ava_platformvm::state::l1_validator::L1Validator;
use ava_platformvm::state::metadata_codec::{
    CODEC_VERSION_0, CODEC_VERSION_1, CODEC_VERSION_2, LONG_LEN, PRE_DELEGATEE_REWARD_SIZE,
};
use ava_platformvm::state::metadata_validator::{
    parse_validator_metadata, StakingInfo, ValidatorMetadata,
};
use ava_platformvm::state::staker::{Priority, Staker};
use ava_platformvm::state::state::State;
use ava_platformvm::state::storage::{ByteSpace, CACHE_SIZE};
use ava_platformvm::txs::components::{Output, OutputOwners, TransferOutput};
use ava_platformvm::utxo::Utxo;
use ava_platformvm::wire::List;

const V0_BYTES: &[u8] = &[
    0x00, 0x00, // version
    0x00, 0x00, 0x00, 0x00, 0x00, 0x5B, 0x8D, 0x80, // up duration
    0x00, 0x00, 0x00, 0x00, 0x00, 0x0D, 0xBB, 0xA0, // last updated
    0x00, 0x00, 0x00, 0x00, 0x00, 0x01, 0x86, 0xA0, // potential reward
    0x00, 0x00, 0x00, 0x00, 0x00, 0x00, 0x4E, 0x20, // potential delegatee reward
];

const V1_BYTES: &[u8] = &[
    0x00, 0x01, // version
    0x00, 0x00, 0x00, 0x00, 0x00, 0x5B, 0x8D, 0x80, // up duration
    0x00, 0x00, 0x00, 0x00, 0x00, 0x0D, 0xBB, 0xA0, // last updated
    0x00, 0x00, 0x00, 0x00, 0x00, 0x01, 0x86, 0xA0, // potential reward
    0x00, 0x00, 0x00, 0x00, 0x00, 0x00, 0x4E, 0x20, // potential delegatee reward
    0x00, 0x00, 0x00, 0x00, 0x00, 0x04, 0x93, 0xE0, // staker start time
];

const V2_BYTES: &[u8] = &[
    0x00, 0x02, // version
    0x00, 0x00, 0x00, 0x00, 0x00, 0x5B, 0x8D, 0x80, // up duration
    0x00, 0x00, 0x00, 0x00, 0x00, 0x0D, 0xBB, 0xA0, // last updated
    0x00, 0x00, 0x00, 0x00, 0x00, 0x01, 0x86, 0xA0, // potential reward
    0x00, 0x00, 0x00, 0x00, 0x00, 0x00, 0x4E, 0x20, // potential delegatee reward
    0x00, 0x00, 0x00, 0x00, 0x00, 0x04, 0x93, 0xE0, // staker start time
    0x00, 0x00, 0x00, 0x00, 0x00, 0x00, 0x03, 0xE8, // accrued validation rewards
    0x00, 0x00, 0x00, 0x00, 0x00, 0x00, 0x01, 0xF4, // accrued delegatee rewards
    0x00, 0x04, 0x93, 0xE0, // auto compound reward shares
    0x00, 0x00, 0x00, 0x00, 0x00, 0x01, 0x51, 0x80, // next period
    0x00, 0x00, 0x00, 0x00, 0x00, 0x06, 0x1A, 0x80, // staker end time
];

fn v0_value() -> ValidatorMetadata {
    ValidatorMetadata {
        up_duration: 6_000_000,
        last_updated: 900_000,
        potential_reward: 100_000,
        potential_delegatee_reward: 20_000,
        ..ValidatorMetadata::default()
    }
}

fn v1_value() -> ValidatorMetadata {
    ValidatorMetadata { staker_start_time: 300_000, ..v0_value() }
}

fn v2_value() -> ValidatorMetadata {
    ValidatorMetadata {
        accrued_validation_rewards: 1_000,
        accrued_delegatee_rewards: 500,
        auto_compound_reward_shares: 300_000,
        next_period: 86_400,
        staker_end_time: 400_000,
        ..v1_value()
    }
}

#[test]
fn metadata_codec_v2_roundtrip_v0() {
    let want = v0_value();
    assert_eq!(want.marshal(CODEC_VERSION_0).expect("marshal"), V0_BYTES);
    assert_eq!(parse_validator_metadata(V0_BYTES).expect("parse"), want);
}

#[test]
fn metadata_codec_v2_roundtrip_v1() {
    let want = v1_value();
    assert_eq!(want.marshal(CODEC_VERSION_1).expect("marshal"), V1_BYTES);
    assert_eq!(parse_validator_metadata(V1_BYTES).expect("parse"), want);
}

#[test]
fn metadata_codec_v2_roundtrip_v2() {
    let want = v2_value();
    assert_eq!(want.marshal(CODEC_VERSION_2).expect("marshal"), V2_BYTES);
    assert_eq!(parse_validator_metadata(V2_BYTES).expect("parse"), want);
}

#[test]
fn metadata_codec_v2_fallback_nil() {
    assert_eq!(parse_validator_metadata(&[]).expect("parse"), ValidatorMetadata::default());
}

#[test]
fn metadata_codec_v2_fallback_potential_reward_only() {
    let bytes: &[u8] = &[0x00, 0x00, 0x00, 0x00, 0x00, 0x01, 0x86, 0xA0];
    assert_eq!(bytes.len(), LONG_LEN);
    assert_eq!(
        parse_validator_metadata(bytes).expect("parse"),
        ValidatorMetadata { potential_reward: 100_000, ..ValidatorMetadata::default() }
    );
}

#[test]
fn metadata_codec_v2_fallback_pre_delegatee_reward() {
    let bytes: &[u8] = &[
        0x00, 0x00, // version
        0x00, 0x00, 0x00, 0x00, 0x00, 0x5B, 0x8D, 0x80, // up duration
        0x00, 0x00, 0x00, 0x00, 0x00, 0x0D, 0xBB, 0xA0, // last updated
        0x00, 0x00, 0x00, 0x00, 0x00, 0x01, 0x86, 0xA0, // potential reward
    ];
    assert_eq!(bytes.len(), PRE_DELEGATEE_REWARD_SIZE);
    assert_eq!(
        parse_validator_metadata(bytes).expect("parse"),
        ValidatorMetadata {
            up_duration: 6_000_000,
            last_updated: 900_000,
            potential_reward: 100_000,
            ..ValidatorMetadata::default()
        }
    );
}

#[test]
fn metadata_codec_v2_invalid_version() {
    let bytes: &[u8] = &[0x00, 0x03];
    assert!(matches!(parse_validator_metadata(bytes), Err(CodecError::UnknownVersion)));
    assert_eq!(v0_value().marshal(3), Err(CodecError::UnknownVersion));
}

#[test]
fn metadata_codec_v2_short_byte_len() {
    let bytes: &[u8] = &[
        0x00, 0x00, // version
        0x00, 0x00, 0x00, 0x00, 0x00, 0x5B, 0x8D, 0x80, // up duration
        0x00, 0x00, 0x00, 0x00, 0x00, 0x0D, 0xBB, 0xA0, // last updated
        0x00, 0x00, 0x00, 0x00, 0x00, 0x01, 0x86, 0xA0, // potential reward
        0x00, 0x00, 0x00, 0x00, 0x4E, 0x20, // potential delegatee reward, cut short
    ];
    assert!(matches!(parse_validator_metadata(bytes), Err(CodecError::InsufficientLength)));
}

#[test]
fn metadata_codec_v2_effective_weight() {
    let md = v2_value();
    assert_eq!(md.effective_weight(10_000), Some(10_000 + 1_000 + 500));
    assert_eq!(md.effective_weight(u64::MAX), None);
}

#[test]
fn metadata_with_bytes_left_over_is_refused() {
    let mut bytes = V2_BYTES.to_vec();
    bytes.push(0);
    assert_eq!(parse_validator_metadata(&bytes), Err(CodecError::ExtraSpace));
}

fn l1_fixture() -> L1Validator {
    L1Validator {
        validation_id: Id::from([0xAA; 32]),
        subnet_id: Id::from([0x11; 32]),
        node_id: NodeId::from([0x22; 20]),
        public_key: vec![0x33, 0x44, 0x55],
        remaining_balance_owner: vec![0x66, 0x77],
        deactivation_owner: vec![0x88],
        start_time: 0x0102_0304_0506_0708,
        weight: 0x1112_1314_1516_1718,
        min_nonce: 0x2122_2324_2526_2728,
        end_accumulated_fee: 0x3132_3334_3536_3738,
    }
}

const L1_EXPECTED: &[u8] = &[
    0x00, 0x00, // version
    0x11, 0x11, 0x11, 0x11, 0x11, 0x11, 0x11, 0x11, // subnet
    0x11, 0x11, 0x11, 0x11, 0x11, 0x11, 0x11, 0x11, //
    0x11, 0x11, 0x11, 0x11, 0x11, 0x11, 0x11, 0x11, //
    0x11, 0x11, 0x11, 0x11, 0x11, 0x11, 0x11, 0x11, //
    0x22, 0x22, 0x22, 0x22, 0x22, 0x22, 0x22, 0x22, // node
    0x22, 0x22, 0x22, 0x22, 0x22, 0x22, 0x22, 0x22, //
    0x22, 0x22, 0x22, 0x22, //
    0x00, 0x00, 0x00, 0x03, 0x33, 0x44, 0x55, // public key
    0x00, 0x00, 0x00, 0x02, 0x66, 0x77, // remaining balance owner
    0x00, 0x00, 0x00, 0x01, 0x88, // deactivation owner
    0x01, 0x02, 0x03, 0x04, 0x05, 0x06, 0x07, 0x08, // start time
    0x11, 0x12, 0x13, 0x14, 0x15, 0x16, 0x17, 0x18, // weight
    0x21, 0x22, 0x23, 0x24, 0x25, 0x26, 0x27, 0x28, // least nonce
    0x31, 0x32, 0x33, 0x34, 0x35, 0x36, 0x37, 0x38, // end accumulated fee
];

#[test]
fn l1_validator_codec() {
    let v = l1_fixture();
    let bytes = v.marshal().expect("marshal");
    assert_eq!(bytes.as_slice(), L1_EXPECTED);

    let decoded = L1Validator::unmarshal(&bytes).expect("unmarshal");
    let mut want = l1_fixture();
    want.validation_id = Id::empty();
    assert_eq!(decoded, want);

    assert_eq!(decoded.marshal().expect("marshal again").as_slice(), L1_EXPECTED);
}

fn l1(id: u8, weight: u64, fee: u64) -> L1Validator {
    L1Validator {
        validation_id: Id::from([id; 32]),
        subnet_id: Id::from([0x51; 32]),
        node_id: NodeId::from([id; 20]),
        public_key: vec![],
        remaining_balance_owner: vec![],
        deactivation_owner: vec![],
        start_time: 1,
        weight,
        min_nonce: 0,
        end_accumulated_fee: fee,
    }
}

#[test]
fn l1_validator_order() {
    let all: Vec<L1Validator> = vec![
        l1(1, 0, 0),
        l1(2, 1, 0),
        l1(1, 1, 5),
        l1(2, 0, 5),
        l1(3, 7, u64::MAX),
        l1(0, u64::MAX, 1),
    ];
    for a in &all {
        for b in &all {
            let expected = a
                .end_accumulated_fee
                .cmp(&b.end_accumulated_fee)
                .then_with(|| a.validation_id.bytes.cmp(&b.validation_id.bytes));
            assert_eq!(a.compare(b), expected);
            assert_eq!(a.compare(b), b.compare(a).reverse());
        }
        assert_eq!(a.is_active(), a.weight != 0 && a.end_accumulated_fee != 0);
        assert_eq!(a.is_deleted(), a.weight == 0);
    }
}

#[test]
fn l1_validator_order_total() {
    let all: Vec<L1Validator> =
        vec![l1(1, 1, 5), l1(2, 1, 5), l1(1, 1, 6), l1(9, 1, 4), l1(9, 2, 4)];
    for a in &all {
        for b in &all {
            for c in &all {
                if a.compare(b) != Ordering::Greater && b.compare(c) != Ordering::Greater {
                    assert_ne!(a.compare(c), Ordering::Greater);
                }
            }
        }
    }
}

#[test]
fn immutable_fields_of_an_l1_validator() {
    let a = l1_fixture();
    let mut b = l1_fixture();
    b.weight = 1;
    b.min_nonce = 2;
    b.end_accumulated_fee = 3;
    assert!(a.immutable_fields_are_unmodified(&b));
    b.start_time = 9;
    assert!(!a.immutable_fields_are_unmodified(&b));
}

#[test]
fn empty_supply_is_zero() {
    let s = State::new();
    assert_eq!(s.current_supply(Id::empty()).expect("supply"), 0);
}

fn utxo(tx: u8, index: u32, addrs: &[ShortId]) -> Utxo {
    Utxo {
        tx_id: Id::from([tx; 32]),
        output_index: index,
        asset_id: Id::from([0x42; 32]),
        out: Output::Transfer(TransferOutput {
            amt: 1_000,
            owners: OutputOwners {
                locktime: 0,
                threshold: 1,
                addrs: List { items: addrs.to_vec() },
            },
        }),
    }
}

#[test]
fn utxo_address_index_add_delete_paginate() {
    let addr_a = ShortId::from([0x0A; 20]);
    let addr_b = ShortId::from([0x0B; 20]);

    let mut s = State::new();
    let u1 = utxo(0x01, 0, &[addr_a]);
    let u2 = utxo(0x02, 0, &[addr_a, addr_b]);
    let u3 = utxo(0x03, 0, &[addr_b]);
    for u in [&u1, &u2, &u3] {
        s.add_utxo(u.input_id(), u.marshal().expect("marshal utxo"));
    }

    let mut a_ids = vec![u1.input_id(), u2.input_id()];
    a_ids.sort_by_key(|i| i.bytes);
    assert_eq!(s.utxo_ids(&addr_a, Id::empty(), usize::MAX), a_ids);
    let mut b_ids = vec![u2.input_id(), u3.input_id()];
    b_ids.sort_by_key(|i| i.bytes);
    assert_eq!(s.utxo_ids(&addr_b, Id::empty(), usize::MAX), b_ids);

    assert_eq!(s.utxo_ids(&addr_a, a_ids[0], usize::MAX), vec![a_ids[1]]);
    assert_eq!(s.utxo_ids(&addr_a, Id::empty(), 1), vec![a_ids[0]]);

    s.delete_utxo(u2.input_id());
    assert_eq!(s.utxo_ids(&addr_a, Id::empty(), usize::MAX), vec![u1.input_id()]);
    assert_eq!(s.utxo_ids(&addr_b, Id::empty(), usize::MAX), vec![u3.input_id()]);

    let addr_c = ShortId::from([0x0C; 20]);
    assert!(s.utxo_ids(&addr_c, Id::empty(), usize::MAX).is_empty());
}

#[test]
fn pages_of_outputs_make_up_the_list() {
    let addr = ShortId::from([0x0A; 20]);
    let mut s = State::new();
    for i in 0..5u8 {
        let u = utxo(i, 0, &[addr]);
        s.add_utxo(u.input_id(), u.marshal().expect("marshal utxo"));
    }
    let whole = s.utxo_ids(&addr, Id::empty(), usize::MAX);
    assert_eq!(whole.len(), 5);
    let mut pages: Vec<Id> = vec![];
    let mut from = Id::empty();
    loop {
        let page = s.utxo_ids(&addr, from, 2);
        let Some(last) = page.last().copied() else { break };
        let mut both = page.clone();
        both.extend(s.utxo_ids(&addr, last, usize::MAX));
        assert_eq!(both, s.utxo_ids(&addr, from, usize::MAX));
        pages.extend(page);
        from = last;
    }
    assert_eq!(pages, whole);
}

#[test]
fn stored_outputs_are_read_back() {
    let mut s = State::new();
    let u = utxo(0x05, 7, &[ShortId::from([1; 20])]);
    let bytes = u.marshal().expect("marshal");
    s.add_utxo(u.input_id(), bytes.clone());
    assert_eq!(s.get_utxo(u.input_id()), Ok(bytes.clone()));
    assert_eq!(Utxo::unmarshal(&bytes), Ok(u));
    assert_eq!(
        s.get_utxo(Id::from([9; 32])),
        Err(Error::Database(DbError::NotFound))
    );
}

fn staker(tx: u8, node: u8, weight: u64) -> Staker {
    Staker::new_current(
        Id::from([tx; 32]),
        NodeId::from([node; 20]),
        None,
        Id::empty(),
        weight,
        1,
        100 + u64::from(tx),
        0,
        Priority::PrimaryNetworkValidatorCurrent,
    )
}

const ALL_PRIORITIES: [Priority; 11] = [
    Priority::PrimaryNetworkDelegatorApricotPending,
    Priority::PrimaryNetworkValidatorPending,
    Priority::PrimaryNetworkDelegatorBanffPending,
    Priority::SubnetPermissionlessValidatorPending,
    Priority::SubnetPermissionlessDelegatorPending,
    Priority::SubnetPermissionedValidatorPending,
    Priority::SubnetPermissionedValidatorCurrent,
    Priority::SubnetPermissionlessDelegatorCurrent,
    Priority::SubnetPermissionlessValidatorCurrent,
    Priority::PrimaryNetworkDelegatorCurrent,
    Priority::PrimaryNetworkValidatorCurrent,
];

fn key_staker(secs: u64, priority: Priority, tx: u8) -> Staker {
    Staker {
        tx_id: Id::from([tx; 32]),
        node_id: NodeId::empty(),
        public_key: None,
        subnet_id: Id::empty(),
        weight: 0,
        start_time: secs,
        end_time: secs,
        potential_reward: 0,
        next_time: secs,
        priority,
    }
}

#[test]
fn staker_ord_matches_go() {
    let mut all = Vec::new();
    for secs in 0..2u64 {
        for p in ALL_PRIORITIES {
            for tx in 0..2u8 {
                all.push(key_staker(secs, p, tx));
            }
        }
    }
    for a in &all {
        for b in &all {
            let ka = (a.next_time, a.priority.to_u8(), a.tx_id.bytes);
            let kb = (b.next_time, b.priority.to_u8(), b.tx_id.bytes);
            assert_eq!(a.before(b), ka < kb);
        }
    }
}

#[test]
fn staker_ord_is_total_order() {
    let all = [
        key_staker(1, Priority::PrimaryNetworkValidatorCurrent, 1),
        key_staker(1, Priority::PrimaryNetworkValidatorCurrent, 2),
        key_staker(1, Priority::PrimaryNetworkDelegatorCurrent, 3),
        key_staker(0, Priority::PrimaryNetworkValidatorCurrent, 3),
    ];
    for a in &all {
        assert!(!a.before(a));
        for b in &all {
            for c in &all {
                if a.before(b) && b.before(c) {
                    assert!(a.before(c));
                }
            }
            assert!(!(a.before(b) && b.before(a)));
        }
    }
}

#[test]
fn priorities_are_numbered_from_one() {
    for (i, p) in ALL_PRIORITIES.iter().enumerate() {
        assert_eq!(usize::from(p.to_u8()), i + 1);
        assert_eq!(p.is_pending(), i < 6);
        assert_eq!(p.is_current(), i >= 6);
    }
    assert!(Priority::PrimaryNetworkValidatorCurrent.is_current_validator());
    assert!(!Priority::PrimaryNetworkDelegatorCurrent.is_current_validator());
    assert!(!Priority::PrimaryNetworkValidatorPending.is_current_validator());
}

#[test]
fn current_stakers_are_listed_in_order() {
    let mut s = State::new();
    s.put_current_validator(staker(3, 3, 30)).expect("put");
    s.put_current_validator(staker(1, 1, 10)).expect("put");
    s.put_current_delegator(staker(2, 1, 5));
    let ids: Vec<u8> = s.current_stakers().iter().map(|x| x.tx_id.bytes[0]).collect();
    assert_eq!(ids, vec![1, 2, 3]);
    assert_eq!(
        s.put_current_validator(Staker {
            priority: Priority::PrimaryNetworkValidatorPending,
            ..staker(4, 4, 9)
        }),
        Err(Error::WrongTxType)
    );
    s.delete_current_validator(&staker(1, 1, 10));
    assert!(s.get_current_validator(Id::empty(), NodeId::from([1; 20])).is_err());
    // The delegator's weight still counts for its node.
    let weights = s.current_validator_weights();
    assert_eq!(weights.len(), 2);
    assert_eq!(*weights.val_at(0), 5);
    assert_eq!(*weights.val_at(1), 30);
}

#[test]
fn a_layer_reads_over_its_parent_and_applies_to_it() {
    let mut base = State::new();
    base.set_timestamp(10);
    base.set_current_supply(Id::empty(), 7);
    base.add_tx(Id::from([1; 32]), vec![1]);
    base.put_current_validator(staker(1, 1, 10)).expect("put");
    let parent = Arc::new(base.snapshot());
    let mut d = Diff::on(Parent::Base(parent));
    assert_eq!(d.timestamp(), 10);
    assert_eq!(d.get_tx(Id::from([1; 32])), Ok(vec![1]));

    d.set_timestamp(20);
    d.set_current_supply(Id::empty(), 9);
    d.set_fee_state(GasState { capacity: 3, excess: 4 });
    d.set_l1_validator_excess(5);
    d.set_accrued_fees(6);
    d.add_tx(Id::from([2; 32]), vec![2]);
    d.add_subnet(Id::from([3; 32]));
    d.set_subnet_owner(Id::from([3; 32]), vec![33]);
    d.set_subnet_manager(Id::from([3; 32]), vec![34]);
    d.add_chain(Id::from([3; 32]), Id::from([4; 32]));
    d.add_reward_utxo(Id::from([2; 32]), vec![5]);
    d.put_l1_validator(l1(8, 11, 1)).expect("l1");
    d.delete_current_validator(&staker(1, 1, 10));
    d.put_pending_validator(Staker::new_pending(
        Id::from([6; 32]),
        NodeId::from([6; 20]),
        None,
        Id::empty(),
        1,
        50,
        60,
        Priority::PrimaryNetworkValidatorPending,
    ))
    .expect("pending");

    assert_eq!(d.timestamp(), 20);
    assert_eq!(d.weight_of_l1_validators(Id::from([0x51; 32])), Ok(11));
    assert!(d.get_current_validator(Id::empty(), NodeId::from([1; 20])).is_err());

    d.apply(&mut base).expect("apply");
    assert_eq!(base.timestamp(), 20);
    assert_eq!(base.current_supply(Id::empty()), Ok(9));
    assert_eq!(base.fee_state(), GasState { capacity: 3, excess: 4 });
    assert_eq!(base.l1_validator_excess(), 5);
    assert_eq!(base.accrued_fees(), 6);
    assert_eq!(base.get_tx(Id::from([1; 32])), Ok(vec![1]));
    assert_eq!(base.get_tx(Id::from([2; 32])), Ok(vec![2]));
    assert_eq!(base.subnets(), vec![Id::from([3; 32])]);
    assert_eq!(base.get_subnet_owner(Id::from([3; 32])), Ok(vec![33]));
    assert_eq!(base.get_subnet_manager(Id::from([3; 32])), Ok(vec![34]));
    assert_eq!(base.chains(Id::from([3; 32])), vec![Id::from([4; 32])]);
    assert_eq!(base.get_reward_utxos(Id::from([2; 32])), vec![vec![5]]);
    assert_eq!(base.get_l1_validator(Id::from([8; 32])), Ok(l1(8, 11, 1)));
    assert_eq!(base.active_l1_validators().len(), 1);
    assert!(base.get_current_validator(Id::empty(), NodeId::from([1; 20])).is_err());
    assert_eq!(base.pending_stakers().len(), 1);
}

#[test]
fn a_layer_lists_the_stakers_after_its_changes() {
    let parent = Parent::Base(Arc::new(State::new()));
    let mut d = Diff::on(parent);
    d.put_current_validator(staker(3, 3, 30)).expect("put");
    d.put_current_validator(staker(1, 1, 10)).expect("put");
    let pending = Staker::new_pending(
        Id::from([6; 32]),
        NodeId::from([6; 20]),
        None,
        Id::empty(),
        1,
        50,
        60,
        Priority::PrimaryNetworkValidatorPending,
    );
    d.put_pending_validator(pending).expect("pending");
    let ids = |l: Vec<Staker>| l.iter().map(|x| x.tx_id.bytes[0]).collect::<Vec<u8>>();
    assert_eq!(ids(d.current_stakers()), vec![1, 3]);
    assert_eq!(ids(d.pending_stakers()), vec![6]);

    // A layer on a layer lists over both.
    let mut e = Diff::on(Parent::Layer(Arc::new(d)));
    e.delete_current_validator(&staker(1, 1, 10));
    e.put_current_validator(staker(2, 2, 20)).expect("put");
    assert_eq!(ids(e.current_stakers()), vec![2, 3]);
    assert_eq!(ids(e.pending_stakers()), vec![6]);
}

#[test]
fn a_layer_counts_a_replaced_l1_validator_once() {
    let subnet = Id::from([0x51; 32]);
    let mut base = State::new();
    base.put_l1_validator(l1(8, 10, 1)).expect("put");
    let mut d = Diff::on(Parent::Base(Arc::new(base.snapshot())));
    assert_eq!(d.weight_of_l1_validators(subnet), Ok(10));
    d.put_l1_validator(l1(8, 4, 1)).expect("replace");
    assert_eq!(d.weight_of_l1_validators(subnet), Ok(4));
    d.put_l1_validator(l1(9, 3, 1)).expect("another");
    assert_eq!(d.weight_of_l1_validators(subnet), Ok(7));
    d.apply(&mut base).expect("apply");
    assert_eq!(base.weight_of_l1_validators(subnet), Ok(7));
}

#[test]
fn staking_info_goes_through_a_layer() {
    let node = NodeId::from([1; 20]);
    let mut base = State::new();
    base.put_current_validator(staker(1, 1, 10)).expect("put");
    let before = StakingInfo { delegatee_reward: 1, ..StakingInfo::default() };
    base.set_staking_info(Id::empty(), node, before).expect("set");
    let mut d = Diff::on(Parent::Base(Arc::new(base.snapshot())));
    assert_eq!(d.get_staking_info(Id::empty(), node), Ok(before));
    let after = StakingInfo { delegatee_reward: 5, ..StakingInfo::default() };
    d.set_staking_info(Id::empty(), node, after).expect("set");
    assert_eq!(d.get_staking_info(Id::empty(), node), Ok(after));
    assert_eq!(base.get_staking_info(Id::empty(), node), Ok(before));
    let other = NodeId::from([2; 20]);
    assert!(d.get_staking_info(Id::empty(), other).is_err());
    assert!(d.set_staking_info(Id::empty(), other, after).is_err());
    d.apply(&mut base).expect("apply");
    assert_eq!(base.get_staking_info(Id::empty(), node), Ok(after));
}

#[test]
fn a_layer_without_changes_changes_nothing() {
    let mut base = State::new();
    base.set_timestamp(10);
    base.add_tx(Id::from([1; 32]), vec![1]);
    let d = Diff::on(Parent::Base(Arc::new(base.snapshot())));
    d.apply(&mut base).expect("apply");
    assert_eq!(base.timestamp(), 10);
    assert_eq!(base.get_tx(Id::from([1; 32])), Ok(vec![1]));
    assert!(base.current_stakers().is_empty());
}

#[test]
fn a_later_record_of_an_l1_validator_replaces_the_earlier() {
    let mut s = State::new();
    s.put_l1_validator(l1(8, 11, 1)).expect("put");
    s.put_l1_validator(l1(9, 5, 0)).expect("put another");
    assert_eq!(s.weight_of_l1_validators(Id::from([0x51; 32])), Ok(16));
    s.put_l1_validator(l1(8, 12, 1)).expect("put again");
    assert_eq!(s.weight_of_l1_validators(Id::from([0x51; 32])), Ok(17));
    assert_eq!(s.weight_of_l1_validators(Id::from([0x52; 32])), Ok(0));
    assert_eq!(s.active_l1_validators(), vec![l1(8, 12, 1)]);
}

#[test]
fn staking_info_is_kept_with_a_validator() {
    let mut s = State::new();
    let info = StakingInfo::default();
    assert!(s.get_staking_info(Id::empty(), NodeId::from([1; 20])).is_err());
    s.put_current_validator(staker(1, 1, 10)).expect("put");
    s.set_staking_info(Id::empty(), NodeId::from([1; 20]), info).expect("set");
    assert_eq!(s.get_staking_info(Id::empty(), NodeId::from([1; 20])), Ok(info));
}

#[test]
fn blocks_are_found_by_id_and_by_height() {
    let mut s = State::new();
    s.add_block(Id::from([5; 32]), 3, &[1, 2, 3]);
    assert_eq!(s.get_block(Id::from([5; 32])), Ok(vec![1, 2, 3]));
    assert_eq!(s.get_block_id_at_height(3), Some(Id::from([5; 32])));
    assert_eq!(s.get_block_id_at_height(2), None);
    assert!(s.get_block(Id::from([6; 32])).is_err());
}

#[test]
fn a_copy_of_an_output_equals_it() {
    let u = utxo(0x05, 7, &[ShortId::from([1; 20])]);
    assert_eq!(u.dup(), u);
    // sha256 over the id of the transaction behind the index in eight bytes.
    assert_ne!(u.input_id(), u.tx_id);
}

#[test]
fn what_is_stored_stays_when_the_cache_is_full() {
    let mut space = ByteSpace::new();
    let n = CACHE_SIZE + 10;
    for i in 0..n {
        space.put(&i.to_be_bytes(), &[1, (i % 251) as u8]);
    }
    for i in [0, 1, CACHE_SIZE, n - 1] {
        assert_eq!(space.get(&i.to_be_bytes()), Ok(vec![1, (i % 251) as u8]));
        assert_eq!(space.fetch(&i.to_be_bytes()), Ok(vec![1, (i % 251) as u8]));
    }
    let copy = space.copy();
    space.delete(&0usize.to_be_bytes());
    space.put(&1usize.to_be_bytes(), &[2]);
    assert_eq!(space.get(&0usize.to_be_bytes()), Err(Error::Database(DbError::NotFound)));
    assert_eq!(space.fetch(&0usize.to_be_bytes()), Err(Error::Database(DbError::NotFound)));
    assert_eq!(space.get(&1usize.to_be_bytes()), Ok(vec![2]));
    assert_eq!(copy.get(&0usize.to_be_bytes()), Ok(vec![1, 0]));
    assert_eq!(copy.get(&1usize.to_be_bytes()), Ok(vec![1, 1]));
}

#[test]
fn stakers_agree_in_every_field() {
    let a = staker(1, 1, 10);
    assert!(a.equals(&staker(1, 1, 10)));
    assert!(!a.equals(&staker(1, 1, 11)));
    assert!(!a.equals(&staker(2, 1, 10)));
    assert!(!a.equals(&Staker { potential_reward: 5, ..a }));
}

#[test]
fn current_sets_are_kept_by_subnet() {
    let mut s = State::new();
    s.put_current_validator(staker(1, 1, 10)).expect("put");
    s.put_current_delegator(staker(2, 1, 5));
    let subnet = Id::from([7; 32]);
    s.put_current_validator(Staker {
        subnet_id: subnet,
        priority: Priority::SubnetPermissionlessValidatorCurrent,
        ..staker(3, 3, 30)
    })
    .expect("put");
    let sets = s.current_validator_sets();
    assert_eq!(sets.len(), 2);
    let primary = sets.get(&Id::empty()).expect("primary");
    assert_eq!(primary.get(&NodeId::from([1; 20])).expect("node").weight, 15);
    let other = sets.get(&subnet).expect("subnet");
    assert_eq!(other.get(&NodeId::from([3; 20])).expect("node").weight, 30);
    assert!(s.current_validator_public_keys().is_empty());
}
