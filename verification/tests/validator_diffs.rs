use ava_platformvm::collections::ordmap::OrdMap;
use ava_platformvm::crypto::PublicKey;
use ava_platformvm::error::Error;
use ava_platformvm::ids::{Id, NodeId};
use ava_platformvm::state::diff_iterators::{
    apply_all_validator_public_key_diffs, apply_all_validator_weight_diffs,
    apply_validator_public_key_diffs, apply_validator_weight_diffs, stores_over, AllSets,
    DiffValidator, ValidatorSet,
};
use ava_platformvm::state::disk_staker_diff_iterator::{
    height_from_inverse, inverse_height, marshal_diff_key_by_height, marshal_diff_key_by_subnet_id,
    marshal_start_diff_key_by_height, marshal_start_diff_key_by_subnet_id, marshal_weight_diff,
    unmarshal_diff_key_by_height, unmarshal_diff_key_by_subnet_id, unmarshal_weight_diff,
    ValidatorWeightDiff, DIFF_KEY_LEN, START_DIFF_KEY_LEN,
};

fn up(amount: u64) -> ValidatorWeightDiff {
    ValidatorWeightDiff { decrease: false, amount }
}

fn down(amount: u64) -> ValidatorWeightDiff {
    ValidatorWeightDiff { decrease: true, amount }
}

fn one(node: NodeId, weight: u64, public_key: Option<Vec<u8>>) -> ValidatorSet {
    let mut set = OrdMap::new();
    set.insert(node, DiffValidator { weight, public_key });
    set
}

#[test]
fn diff_iter_newest_first() {
    let (mut weight, _pk) = stores_over();
    let subnet = Id::from([0x07; 32]);
    let node = NodeId::from([0x01; 20]);

    weight.put(subnet, node, 1, &up(10));
    weight.put(subnet, node, 2, &up(5));
    weight.put(subnet, node, 3, &down(3));

    // The scan visits heights 3, 2, 1.
    let heights: Vec<u64> = weight
        .scan(u64::MAX, subnet)
        .iter()
        .map(|k| unmarshal_diff_key_by_subnet_id(k).expect("decode").1)
        .collect();
    assert_eq!(heights, vec![3, 2, 1]);

    // Undoing heights 3 and 2: 12 + 3 - 5.
    let mut set = one(node, 12, None);
    apply_validator_weight_diffs(&weight, &mut set, 3, 2, subnet).expect("apply");
    assert_eq!(set.get(&node).expect("node").weight, 10);

    // Undoing all of them: 12 + 3 - 5 - 10, and the node leaves.
    let mut set0 = one(node, 12, None);
    apply_validator_weight_diffs(&weight, &mut set0, 3, 1, subnet).expect("apply0");
    assert!(!set0.contains(&node));
}

#[test]
fn public_key_diffs_restore_prior() {
    let (_weight, mut pk) = stores_over();
    let subnet = Id::from([0x07; 32]);
    let node = NodeId::from([0x09; 20]);
    let prior_key = vec![0xABu8; 96];

    pk.put(subnet, node, 5, &prior_key);

    let mut set = one(node, 1, Some(vec![0xCD; 96]));
    apply_validator_public_key_diffs(&pk, &mut set, 5, 5, subnet).expect("apply pk");
    assert_eq!(set.get(&node).expect("node").public_key, Some(prior_key));
}

#[test]
fn an_empty_prior_key_is_no_key() {
    let (_weight, mut pk) = stores_over();
    let subnet = Id::from([0x07; 32]);
    let node = NodeId::from([0x09; 20]);
    pk.put(subnet, node, 5, &[]);
    let mut set = one(node, 1, Some(vec![0xCD; 96]));
    apply_validator_public_key_diffs(&pk, &mut set, 5, 5, subnet).expect("apply pk");
    assert_eq!(set.get(&node).expect("node").public_key, None);

    // A node that is not in the set is passed over.
    let other = NodeId::from([0x08; 20]);
    let mut set = one(other, 1, None);
    apply_validator_public_key_diffs(&pk, &mut set, 5, 5, subnet).expect("apply pk");
    assert_eq!(set.len(), 1);
    assert!(!set.contains(&node));
}

#[test]
fn scan_is_newest_first() {
    for hs in [vec![1u64], vec![9, 3, 7], vec![999, 1, 500, 2, 998], (1..16).collect()] {
        let subnet = Id::from([0x07; 32]);
        let node = NodeId::from([0x01; 20]);
        let (mut weight, _pk) = stores_over();
        for h in &hs {
            weight.put(subnet, node, *h, &up(1));
        }
        let seen: Vec<u64> = weight
            .scan(u64::MAX, subnet)
            .iter()
            .map(|k| unmarshal_diff_key_by_subnet_id(k).expect("decode").1)
            .collect();
        let mut expected = hs.clone();
        expected.sort_unstable_by(|a, b| b.cmp(a));
        assert_eq!(seen, expected);
        assert!(weight.scan(u64::MAX, Id::from([0x08; 32])).is_empty());
        assert_eq!(weight.scan(500, subnet).len(), hs.iter().filter(|h| **h <= 500).count());
    }
}

#[test]
fn a_change_by_nothing_is_not_stored() {
    let (mut weight, _pk) = stores_over();
    let subnet = Id::from([0x07; 32]);
    let node = NodeId::from([0x01; 20]);
    weight.put(subnet, node, 1, &up(0));
    let mut set: ValidatorSet = OrdMap::new();
    apply_validator_weight_diffs(&weight, &mut set, 1, 1, subnet).expect("apply");
    assert!(set.is_empty());
}

#[test]
fn other_subnets_and_heights_are_left_alone() {
    let (mut weight, _pk) = stores_over();
    let subnet = Id::from([0x07; 32]);
    let other = Id::from([0x08; 32]);
    let node = NodeId::from([0x01; 20]);
    weight.put(subnet, node, 4, &up(1));
    weight.put(subnet, node, 2, &up(2));
    weight.put(subnet, node, 1, &up(4));
    weight.put(other, node, 2, &up(8));
    let mut set = one(node, 100, None);
    apply_validator_weight_diffs(&weight, &mut set, 3, 2, subnet).expect("apply");
    assert_eq!(set.get(&node).expect("node").weight, 98);
}

#[test]
fn a_weight_out_of_range_cannot_be_undone() {
    let (mut weight, _pk) = stores_over();
    let subnet = Id::from([0x07; 32]);
    let node = NodeId::from([0x01; 20]);
    weight.put(subnet, node, 1, &up(10));
    let mut set = one(node, 9, None);
    assert_eq!(
        apply_validator_weight_diffs(&weight, &mut set, 1, 1, subnet),
        Err(Error::Overflow)
    );
    let mut all: AllSets = OrdMap::new();
    assert_eq!(
        apply_all_validator_weight_diffs(&weight, &mut all, 1, 1),
        Err(Error::Overflow)
    );

    let (mut weight, _pk) = stores_over();
    weight.put(subnet, node, 1, &down(10));
    let mut set = one(node, u64::MAX - 9, None);
    assert_eq!(
        apply_validator_weight_diffs(&weight, &mut set, 1, 1, subnet),
        Err(Error::Overflow)
    );
}

#[test]
fn undoing_all_subnets_agrees_with_undoing_each() {
    let (mut weight, mut pk) = stores_over();
    let a = Id::from([0x07; 32]);
    let b = Id::from([0x08; 32]);
    let m = NodeId::from([0x01; 20]);
    let n = NodeId::from([0x02; 20]);
    weight.put(a, m, 3, &up(3));
    weight.put(a, n, 2, &down(7));
    weight.put(b, m, 3, &up(20));
    weight.put(b, n, 2, &up(5));
    pk.put(a, m, 3, &[1, 2]);
    pk.put(b, n, 2, &[3]);

    let start = |subnet: Id| -> ValidatorSet {
        if subnet == a {
            one(m, 10, Some(vec![9]))
        } else {
            let mut s = one(m, 20, None);
            s.insert(n, DiffValidator { weight: 6, public_key: None });
            s
        }
    };
    let mut all: AllSets = OrdMap::new();
    all.insert(a, start(a));
    all.insert(b, start(b));
    apply_all_validator_weight_diffs(&weight, &mut all, 3, 2).expect("all");
    apply_all_validator_public_key_diffs(&pk, &mut all, 3, 2).expect("all keys");

    for subnet in [a, b] {
        let mut set = start(subnet);
        apply_validator_weight_diffs(&weight, &mut set, 3, 2, subnet).expect("one");
        apply_validator_public_key_diffs(&pk, &mut set, 3, 2, subnet).expect("one key");
        let got = all.get(&subnet).expect("set");
        assert_eq!(got.len(), set.len());
        for i in 0..set.len() {
            assert_eq!(got.key_at(i), set.key_at(i));
            assert_eq!(got.val_at(i), set.val_at(i));
        }
    }
    assert_eq!(all.get(&a).expect("a").get(&m).expect("m").weight, 7);
    assert_eq!(all.get(&a).expect("a").get(&n).expect("n").weight, 7);
    assert_eq!(all.get(&b).expect("b").get(&n).expect("n").weight, 1);
    assert!(!all.get(&b).expect("b").contains(&m));
}

#[test]
fn a_set_left_without_validators_is_dropped() {
    let (mut weight, _pk) = stores_over();
    let subnet = Id::from([0x07; 32]);
    let node = NodeId::from([0x01; 20]);
    weight.put(subnet, node, 1, &up(10));
    let mut all: AllSets = OrdMap::new();
    all.insert(subnet, one(node, 10, None));
    apply_all_validator_weight_diffs(&weight, &mut all, 1, 1).expect("all");
    assert!(!all.contains(&subnet));
}

#[test]
fn undoing_in_two_steps_is_undoing_at_once() {
    let (mut weight, _pk) = stores_over();
    let subnet = Id::from([0x07; 32]);
    let node = NodeId::from([0x01; 20]);
    for h in 1..6u64 {
        weight.put(subnet, node, h, &up(h));
    }
    let mut once = one(node, 100, None);
    apply_validator_weight_diffs(&weight, &mut once, 5, 2, subnet).expect("once");
    let mut twice = one(node, 100, None);
    apply_validator_weight_diffs(&weight, &mut twice, 5, 4, subnet).expect("first");
    apply_validator_weight_diffs(&weight, &mut twice, 3, 2, subnet).expect("second");
    assert_eq!(once.get(&node).expect("once").weight, 100 - 5 - 4 - 3 - 2);
    assert_eq!(twice.get(&node).expect("twice").weight, 100 - 5 - 4 - 3 - 2);
}

#[test]
fn weight_diff_key_layout() {
    let subnet_id = Id::from([0x11; 32]);
    let node_id = NodeId::from([0x22; 20]);
    let height: u64 = 0x0102_0304_0506_0708;
    let inverse: [u8; 8] = [0xFE, 0xFD, 0xFC, 0xFB, 0xFA, 0xF9, 0xF8, 0xF7];
    assert_eq!(inverse_height(height).to_be_bytes(), inverse);
    assert_eq!(height_from_inverse(inverse_height(height)), height);

    let mut expected_by_subnet = Vec::new();
    expected_by_subnet.extend_from_slice(&[0x11; 32]);
    expected_by_subnet.extend_from_slice(&inverse);
    expected_by_subnet.extend_from_slice(&[0x22; 20]);
    let by_subnet = marshal_diff_key_by_subnet_id(subnet_id, height, node_id);
    assert_eq!(by_subnet, expected_by_subnet);
    assert_eq!(by_subnet.len(), DIFF_KEY_LEN);

    let mut expected_by_height = Vec::new();
    expected_by_height.extend_from_slice(&inverse);
    expected_by_height.extend_from_slice(&[0x11; 32]);
    expected_by_height.extend_from_slice(&[0x22; 20]);
    let by_height = marshal_diff_key_by_height(height, subnet_id, node_id);
    assert_eq!(by_height, expected_by_height);
    assert_eq!(by_height.len(), DIFF_KEY_LEN);

    let start_by_subnet = marshal_start_diff_key_by_subnet_id(subnet_id, height);
    assert_eq!(Some(start_by_subnet.as_slice()), by_subnet.get(..START_DIFF_KEY_LEN));
    let start_by_height = marshal_start_diff_key_by_height(height);
    assert_eq!(Some(start_by_height.as_slice()), by_height.get(..8));

    let neg = ValidatorWeightDiff { decrease: true, amount: 0x0102_0304_0506_0708 };
    assert_eq!(
        marshal_weight_diff(&neg),
        vec![0x01, 0x01, 0x02, 0x03, 0x04, 0x05, 0x06, 0x07, 0x08],
    );
    let pos = ValidatorWeightDiff { decrease: false, amount: 1 };
    assert_eq!(
        marshal_weight_diff(&pos),
        vec![0x00, 0x00, 0x00, 0x00, 0x00, 0x00, 0x00, 0x00, 0x01],
    );

    let (s, h, n) = unmarshal_diff_key_by_subnet_id(&by_subnet).expect("by-subnet");
    assert_eq!((s, h, n), (subnet_id, height, node_id));
    let (h2, s2, n2) = unmarshal_diff_key_by_height(&by_height).expect("by-height");
    assert_eq!((h2, s2, n2), (height, subnet_id, node_id));
    assert_eq!(unmarshal_weight_diff(&marshal_weight_diff(&neg)).expect("v"), neg);
}

#[test]
fn keys_of_another_length_are_refused() {
    assert!(unmarshal_diff_key_by_subnet_id(&[0; 59]).is_err());
    assert!(unmarshal_diff_key_by_height(&[0; 61]).is_err());
    assert!(unmarshal_weight_diff(&[0; 8]).is_err());
}

#[test]
fn a_key_survives_being_compressed() {
    // The generator of the group, compressed.
    let compressed: [u8; 48] = [
        0x97, 0xf1, 0xd3, 0xa7, 0x31, 0x97, 0xd7, 0x94, 0x26, 0x95, 0x63, 0x8c, 0x4f, 0xa9, 0xac,
        0x0f, 0xc3, 0x68, 0x8c, 0x4f, 0x97, 0x74, 0xb9, 0x05, 0xa1, 0x4e, 0x3a, 0x3f, 0x17, 0x1b,
        0xac, 0x58, 0x6c, 0x55, 0xe8, 0x3f, 0xf9, 0x7a, 0x1a, 0xef, 0xfb, 0x3a, 0xf0, 0x0a, 0xdb,
        0x22, 0xc6, 0xbb,
    ];
    let key = PublicKey::from_compressed(&compressed).expect("a point");
    assert_eq!(key.compress(), compressed);
    assert_eq!(key.serialize().len(), 96);
    assert_eq!(&key.serialize()[..4], &[0x17, 0xf1, 0xd3, 0xa7]);
    let again = PublicKey::from_uncompressed(&key.serialize()).expect("the same point");
    assert_eq!(again, key);
    assert!(PublicKey::from_compressed(&[0u8; 48]).is_none());
    assert!(PublicKey::from_uncompressed(&[1u8; 95]).is_none());
}
