use std::cell::RefCell;
use std::sync::Mutex;

use ava_platformvm::ids::Id;
use ava_platformvm::p2p::client::Client;
use ava_platformvm::p2p::error::{Error, Result};
use ava_platformvm::p2p::gossip::bloom::{
    hash, BloomSet, Filter, FilterError, FreshFilter, DEFAULT_MIN_TARGET_ELEMENTS,
};
use ava_platformvm::p2p::gossip::handler::{answer_pull, app_gossip, Offer, PullAnswer};
use ava_platformvm::p2p::gossip::pull::{handle_response, pull_request, Admission};
use ava_platformvm::p2p::gossip::push::{DiscardedCache, PushQueue};
use ava_platformvm::p2p::gossip::traits::{
    GossipParams, GossipSet, Gossipable, Marshaller, Visitor,
};
use ava_platformvm::p2p::handler::err_throttled;
use ava_platformvm::p2p::network::parse_prefix;
use ava_platformvm::p2p::pb::{PullGossipRequest, PullGossipResponse, PushGossip};

const HANDLER_ID: u64 = 0;

fn indexed_id(index: u32) -> Id {
    let mut bytes = [0u8; 32];
    bytes[0..4].copy_from_slice(&index.to_be_bytes());
    Id::from(bytes)
}

// The number of hashes and of bytes that are best for `count` items.
fn optimal_parameters(count: usize, fpp: f64) -> (usize, usize) {
    let ln2 = std::f64::consts::LN_2;
    let bits = -(count as f64) * fpp.ln() / (ln2 * ln2);
    let entries = (((bits + 7.0) / 8.0) as usize).max(1);
    let hashes = ((entries * 8) as f64 * ln2 / count as f64).ceil() as usize;
    (hashes.clamp(1, 16), entries)
}

// How many items a filter takes until it is wrong as often as `fpp`.
fn estimate_count(hashes: usize, entries: usize, fpp: f64) -> usize {
    let inv = 1.0 / hashes as f64;
    let bits = (entries * 8) as f64;
    let exp = 1.0 - fpp.powf(inv);
    (-exp.ln() * bits * inv).ceil() as usize
}

fn fresh(round: u8, count: usize, target: f64, reset: f64) -> FreshFilter {
    let (hashes, entries) = optimal_parameters(count, target);
    let seeds: Vec<u64> = (0..hashes)
        .map(|i| 0x9e37_79b9_7f4a_7c15u64.wrapping_mul(1 + i as u64 + 100 * u64::from(round)))
        .collect();
    FreshFilter {
        filter: Filter::new(seeds, entries).expect("a filter"),
        salt: [round; 32],
        max_count: estimate_count(hashes, entries, reset),
    }
}

fn bloom_set() -> BloomSet {
    BloomSet::new(64, fresh(1, BloomSet::min_target(64), 0.01, 0.05))
}

#[test]
fn bloom_set_membership() {
    let mut bs = bloom_set();
    let ids: Vec<Id> = (0u8..3).map(|i| Id::from([i; 32])).collect();
    for id in &ids {
        bs.add(id);
    }
    for id in &ids {
        assert!(bs.has(id));
    }
    assert!(!bs.has(&Id::from([99u8; 32])));
}

#[test]
fn bloom_set_marshal_readable_by_read_filter() {
    let mut bs = bloom_set();
    let id = Id::from([7u8; 32]);
    bs.add(&id);

    let (bloom_bytes, salt) = bs.marshal();
    let read_filter = Filter::parse(&bloom_bytes).expect("parse of marshal");
    assert!(read_filter.contains_key(id.as_bytes(), &salt));
    assert_eq!(read_filter.marshal(), bloom_bytes);
}

#[test]
fn reset_regenerates_salt_and_refills() {
    const MAX_ADDS: u32 = 10_000;
    assert_eq!(optimal_parameters(16, 0.5), (2, 3));
    assert_eq!(estimate_count(2, 3, 0.1), 5);

    let mut bs = BloomSet::new(16, fresh(1, 16, 0.5, 0.1));
    let (_, old_salt) = bs.marshal();

    let mut known: Vec<Id> = Vec::new();
    let mut reset_happened = false;
    for i in 0..MAX_ADDS {
        let id = indexed_id(i);
        bs.add(&id);
        known.push(id);
        let new = fresh(2, bs.target_elements(known.len()), 0.5, 0.1);
        if bs.reset_if_needed(Ok(new), &known).expect("reset_if_needed") {
            reset_happened = true;
            break;
        }
    }

    assert!(reset_happened);
    let (_, new_salt) = bs.marshal();
    assert_ne!(old_salt, new_salt);
    for id in &known {
        assert!(bs.has(id));
    }
}

#[test]
fn a_set_without_a_new_filter_keeps_the_old_one() {
    let mut bs = BloomSet::new(16, fresh(1, 16, 0.5, 0.1));
    let mut i = 0;
    while !bs.needs_reset() {
        bs.add(&indexed_id(i));
        i += 1;
    }
    let before = bs.marshal();
    assert_eq!(
        bs.reset_if_needed(Err(FilterError::TooFewHashes), &vec![]),
        Err(Error::KnownSet(format!(
            "creating new bloom filter: {}",
            FilterError::TooFewHashes.message()
        )))
    );
    assert_eq!(bs.marshal(), before);
    assert_eq!(bs.target_elements(3), 16);
    assert_eq!(bs.target_elements(30), 30);
    assert_eq!(BloomSet::min_target(0), DEFAULT_MIN_TARGET_ELEMENTS);
}

#[test]
fn filters_have_a_size_they_can_have() {
    assert_eq!(Filter::new(vec![], 1).err(), Some(FilterError::TooFewHashes));
    assert_eq!(Filter::new(vec![1; 17], 1).err(), Some(FilterError::TooManyHashes));
    assert_eq!(Filter::new(vec![1], 0).err(), Some(FilterError::TooFewEntries));
    assert_eq!(Filter::parse(&[]).err(), Some(FilterError::TooFewHashes));
    assert_eq!(Filter::parse(&[0xff]).err(), Some(FilterError::TooManyHashes));
    assert_eq!(Filter::parse(&[1, 0, 0, 0]).err(), Some(FilterError::TooFewEntries));
    // One seed, and one byte of bits.
    let f = Filter::parse(&[1, 0, 0, 0, 0, 0, 0, 0, 5, 0xff]).expect("a filter");
    assert_eq!(f.hash_seeds, vec![5]);
    assert!(f.contains(12345));
}

#[test]
fn a_filter_sets_one_bit_for_each_seed() {
    // The hash is rotated by 17 bits and mixed with the seed, each time.
    let mut f = Filter::new(vec![1, 2], 2).expect("a filter");
    f.add(3);
    let one: u64 = 3u64.rotate_left(17) ^ 1;
    let two: u64 = one.rotate_left(17) ^ 2;
    let mut expected = vec![0u8; 2];
    for h in [one, two] {
        let i = (h % 16) as usize;
        expected[i / 8] |= 1 << (i % 8);
    }
    assert_eq!(f.entries, expected);
    assert_eq!(f.count, 1);
    f.add(3);
    assert_eq!(f.count, 1);
    // The first eight bytes of the sha256 of "abc".
    assert_eq!(hash(b"ab", b"c"), 0xba78_16bf_8f01_cfea);
}

struct DummyGossipable(Id);

impl Gossipable for DummyGossipable {
    fn gossip_id(&self) -> Id {
        self.0
    }
}

struct DummySet {
    items: Mutex<Vec<DummyGossipable>>,
}

impl GossipSet<DummyGossipable> for DummySet {
    fn add(&self, t: DummyGossipable) -> Result<()> {
        self.items.lock().expect("lock").push(t);
        Ok(())
    }

    fn has(&self, id: &Id) -> bool {
        self.items.lock().expect("lock").iter().any(|g| &g.0 == id)
    }

    fn iterate(&self, v: &mut dyn Visitor<DummyGossipable>) {
        for item in self.items.lock().expect("lock").iter() {
            if !v.visit(item) {
                break;
            }
        }
    }

    fn get_filter(&self) -> (Vec<u8>, Vec<u8>) {
        (Vec::new(), Vec::new())
    }
}

struct Counter {
    seen: usize,
}

impl Visitor<DummyGossipable> for Counter {
    fn visit(&mut self, _t: &DummyGossipable) -> bool {
        self.seen += 1;
        true
    }
}

#[test]
fn set_trait_is_object_safe_and_dispatches() {
    let set: Box<dyn GossipSet<DummyGossipable>> =
        Box::new(DummySet { items: Mutex::new(Vec::new()) });
    let id = Id::from([1u8; 32]);
    set.add(DummyGossipable(id)).expect("add");
    assert!(set.has(&id));

    let mut counter = Counter { seen: 0 };
    set.iterate(&mut counter);
    assert_eq!(counter.seen, 1);
}

#[derive(Clone, Copy, Debug, PartialEq, Eq)]
struct TestItem(Id);

impl Gossipable for TestItem {
    fn gossip_id(&self) -> Id {
        self.0
    }
}

#[derive(Clone, Copy)]
struct TestMarshaller;

impl Marshaller<TestItem> for TestMarshaller {
    fn marshal(&self, t: &TestItem) -> Result<Vec<u8>> {
        Ok(t.0.as_bytes().to_vec())
    }

    fn unmarshal(&self, bytes: &[u8]) -> Result<TestItem> {
        match Id::from_slice(bytes) {
            Some(id) => Ok(TestItem(id)),
            None => Err(Error::Decode("not an id".to_string())),
        }
    }
}

#[derive(Default)]
struct TestSet {
    items: RefCell<Vec<Id>>,
    closed: bool,
}

impl GossipSet<TestItem> for TestSet {
    fn add(&self, t: TestItem) -> Result<()> {
        if self.closed {
            return Err(Error::KnownSet("closed".to_string()));
        }
        if !self.items.borrow().contains(&t.0) {
            self.items.borrow_mut().push(t.0);
        }
        Ok(())
    }

    fn has(&self, id: &Id) -> bool {
        self.items.borrow().contains(id)
    }

    fn iterate(&self, v: &mut dyn Visitor<TestItem>) {
        for id in self.items.borrow().iter() {
            if !v.visit(&TestItem(*id)) {
                break;
            }
        }
    }

    fn get_filter(&self) -> (Vec<u8>, Vec<u8>) {
        (vec![9, 9, 9], vec![1, 2, 3, 4])
    }
}

fn raw(id: Id) -> Vec<u8> {
    id.as_bytes().to_vec()
}

#[test]
fn push_cycle_emits_prefixed_push_gossip() {
    let params = GossipParams::default();
    let (id_a, id_b) = (indexed_id(1), indexed_id(2));
    let set = TestSet::default();
    set.add(TestItem(id_a)).expect("add");
    set.add(TestItem(id_b)).expect("add");

    let mut push: PushQueue<TestItem> = PushQueue::new(params.discarded_cache_size);
    push.add(TestItem(id_a), 0);
    push.add(TestItem(id_b), 0);
    push.add(TestItem(id_a), 0);

    let batch = push.drain_push(&TestMarshaller, &set, params.target_message_size, 0);
    let bytes = Client::new(HANDLER_ID).frame(&PushGossip { gossip: batch }.encode_to_vec());
    let (handler_id, payload) = parse_prefix(&bytes).expect("prefix");
    assert_eq!(handler_id, HANDLER_ID);
    assert_eq!(
        PushGossip::decode(payload),
        Some(PushGossip { gossip: vec![raw(id_a), raw(id_b)] })
    );
    assert_eq!(params.push_cfg.validators, 100);

    // What was pushed is not pushed again until it is due.
    assert!(push.drain_push(&TestMarshaller, &set, params.target_message_size, 1).is_empty());
    let period = params.regossip_period;
    let again = |push: &mut PushQueue<TestItem>, now: u64| {
        push.drain_regossip(&TestMarshaller, &set, params.target_message_size, period, now)
    };
    assert!(again(&mut push, period - 1).is_empty());
    assert_eq!(again(&mut push, period), vec![raw(id_a), raw(id_b)]);
    assert!(again(&mut push, period).is_empty());
}

#[test]
fn a_push_stops_at_the_target_size() {
    let set = TestSet::default();
    let mut push: PushQueue<TestItem> = PushQueue::new(4);
    for i in 0..4 {
        set.add(TestItem(indexed_id(i))).expect("add");
        push.add(TestItem(indexed_id(i)), 0);
    }
    // Two items have 64 bytes: the batch is over once it has 33.
    assert_eq!(push.drain_push(&TestMarshaller, &set, 33, 0).len(), 2);
    assert_eq!(push.drain_push(&TestMarshaller, &set, 32, 0).len(), 1);
    assert_eq!(push.drain_push(&TestMarshaller, &set, 1_000, 0).len(), 1);
}

#[test]
fn an_item_that_was_given_up_is_not_pushed_as_new() {
    let set = TestSet::default();
    let id = indexed_id(1);
    let mut push: PushQueue<TestItem> = PushQueue::new(4);
    push.add(TestItem(id), 0);
    // The set does not know the item any more.
    assert!(push.drain_push(&TestMarshaller, &set, 1_000, 0).is_empty());
    set.add(TestItem(id)).expect("add");
    push.add(TestItem(id), 10);
    assert!(push.drain_push(&TestMarshaller, &set, 1_000, 10).is_empty());
    assert!(push.drain_regossip(&TestMarshaller, &set, 1_000, 5, 14).is_empty());
    assert_eq!(push.drain_regossip(&TestMarshaller, &set, 1_000, 5, 15), vec![raw(id)]);
    // With no time between, the item fills the batch.
    assert_eq!(push.drain_regossip(&TestMarshaller, &set, 33, 0, 15), vec![raw(id), raw(id)]);
}

#[test]
fn the_ids_that_were_given_up_last_are_remembered() {
    let mut cache = DiscardedCache::new(2);
    cache.insert(indexed_id(1));
    cache.insert(indexed_id(2));
    assert!(cache.contains(&indexed_id(1)));
    cache.insert(indexed_id(3));
    assert!(cache.contains(&indexed_id(1)));
    assert!(!cache.contains(&indexed_id(2)));
    assert!(cache.contains(&indexed_id(3)));
}

#[test]
fn pull_cycle_requests_with_current_filter() {
    let set = TestSet::default();
    let (filter, salt) = set.get_filter();
    let bytes = Client::new(HANDLER_ID).frame(&pull_request(filter.clone(), salt.clone()));
    let (_, payload) = parse_prefix(&bytes).expect("prefix");
    let decoded = PullGossipRequest::decode(payload).expect("decode");
    assert_eq!(decoded.filter, filter);
    assert_eq!(decoded.salt, salt);
}

#[test]
fn pull_response_admits_items() {
    let set = TestSet::default();
    let (id_a, id_b) = (indexed_id(1), indexed_id(2));
    let response =
        PullGossipResponse { gossip: vec![raw(id_a), vec![1, 2, 3], raw(id_b)] }.encode_to_vec();

    let r = handle_response(&TestMarshaller, &set, Ok(response.clone()));
    assert_eq!(r, vec![Admission::Admitted, Admission::Malformed, Admission::Admitted]);
    assert!(set.has(&id_a));
    assert!(set.has(&id_b));
    assert_eq!(set.items.borrow().len(), 2);

    assert!(handle_response(&TestMarshaller, &set, Err(err_throttled())).is_empty());
    assert!(handle_response(&TestMarshaller, &set, Ok(vec![0x0A])).is_empty());
    let closed = TestSet { closed: true, ..TestSet::default() };
    assert_eq!(
        handle_response(&TestMarshaller, &closed, Ok(response)),
        vec![Admission::Refused, Admission::Malformed, Admission::Refused]
    );
}

fn offers(set: &TestSet) -> Vec<Offer> {
    set.items
        .borrow()
        .iter()
        .map(|id| Offer { id: *id, bytes: TestMarshaller.marshal(&TestItem(*id)).ok() })
        .collect()
}

#[test]
fn handler_answers_pull_excluding_known() {
    let (id_a, id_b) = (indexed_id(1), indexed_id(2));
    let set = TestSet::default();
    set.add(TestItem(id_a)).expect("add");
    set.add(TestItem(id_b)).expect("add");

    let mut requester_filter = bloom_set();
    requester_filter.add(&id_a);
    let (filter, salt) = requester_filter.marshal();
    let request = PullGossipRequest { salt, filter }.encode_to_vec();

    let bytes = answer_pull(&request, offers(&set), GossipParams::default().target_message_size)
        .expect("answer");
    assert_eq!(
        PullGossipResponse::decode(&bytes),
        Some(PullGossipResponse { gossip: vec![raw(id_b)] })
    );
}

#[test]
fn an_answer_ends_once_it_is_larger_than_the_target() {
    let set = TestSet::default();
    for i in 0..5 {
        set.add(TestItem(indexed_id(i))).expect("add");
    }
    let (filter, salt) = bloom_set().marshal();
    let request = PullGossipRequest { salt, filter }.encode_to_vec();
    let count = |target: usize| {
        let bytes = answer_pull(&request, offers(&set), target).expect("answer");
        PullGossipResponse::decode(&bytes).expect("decode").gossip.len()
    };
    assert_eq!(count(31), 1);
    assert_eq!(count(32), 2);
    assert_eq!(count(64), 3);
    assert_eq!(count(1_000), 5);

    // An item that cannot be written spoils the answer.
    let mut broken = offers(&set);
    broken[1].bytes = None;
    let e = answer_pull(&request, broken, 1_000).expect_err("refused");
    assert_eq!((e.code, e.message.as_str()), (-1, "unexpected error"));
}

struct Collector {
    answer: PullAnswer,
}

impl Visitor<TestItem> for Collector {
    fn visit(&mut self, t: &TestItem) -> bool {
        let id = t.gossip_id();
        if !self.answer.wants(&id) {
            return true;
        }
        self.answer.take(TestMarshaller.marshal(t).ok())
    }
}

#[test]
fn an_answer_can_be_collected_on_a_walk() {
    let set = TestSet::default();
    for i in 0..5 {
        set.add(TestItem(indexed_id(i))).expect("add");
    }
    let mut known = bloom_set();
    known.add(&indexed_id(2));
    let (filter, salt) = known.marshal();
    let request = PullGossipRequest { salt, filter }.encode_to_vec();
    let mut c = Collector { answer: PullAnswer::begin(&request, 64).expect("begin") };
    set.iterate(&mut c);
    assert_eq!(c.answer.finish(), answer_pull(&request, offers(&set), 64));
}

#[test]
fn handler_admits_pushed_and_forwards() {
    let set = TestSet::default();
    let mut push: PushQueue<TestItem> = PushQueue::new(4);
    let id_c = indexed_id(3);
    let msg = PushGossip { gossip: vec![raw(id_c), vec![1]] }.encode_to_vec();

    let r = app_gossip(&TestMarshaller, &set, &mut push, &msg, 0);
    assert_eq!(r, vec![Admission::Admitted, Admission::Malformed]);
    assert!(set.has(&id_c));
    assert_eq!(push.drain_push(&TestMarshaller, &set, 1_000, 0), vec![raw(id_c)]);
    assert!(app_gossip(&TestMarshaller, &set, &mut push, &[0x0A], 0).is_empty());
}

#[test]
fn handler_rejects_malformed_pull_request() {
    let request = PullGossipRequest { salt: vec![0u8; 32], filter: vec![0xff] }.encode_to_vec();
    let err = answer_pull(&request, vec![], 1_000).expect_err("refused");
    assert_eq!(err.code, -1);
    assert_eq!(err.message, "unexpected error");
    assert!(answer_pull(&[0x0A], vec![], 1_000).is_err());
}

#[test]
fn gossip_runs_with_the_usual_parameters() {
    let p = GossipParams::default();
    assert_eq!(p.target_message_size, 20_480);
    assert_eq!((p.push_period, p.pull_period, p.regossip_period), (100, 1_000, 30_000));
    assert_eq!((p.push_cfg.validators, p.regossip_cfg.validators), (100, 10));
    assert_eq!(p.discarded_cache_size, 16_384);
}
