//! The stored state: the bottom that every layer of changes lies on.
use vstd::prelude::*;

use crate::codec::{be, push_u64, u64_bytes};
use crate::collections::ordmap::{increasing, lemma_increasing_distinct, lemma_increasing_unique, Dup, Key, OrdMap};
use crate::error::{not_found, DbError, Error, Result};
use crate::ids::{empty_id, Id, NodeId, ShortId};
use crate::order::{bytes_copy, bytes_eq, bytes_lt, lemma_lex_antisymmetric, lemma_lex_shared_prefix, lemma_lex_total, lemma_lex_transitive, lemma_prefix_is_convex, lex_lt};
use crate::state::chain::{blob_bytes, id_bytes, lemma_total_insert, total, with_new, Chain, ChainView, GasState, UtxoBytes};
use crate::state::diff_iterators::{AllSets, PublicKeyDiffStore, WeightDiffStore};
use crate::state::l1_set::{add_weights, keyed_by_id, sorted_active};
use crate::state::l1_validator::L1Validator;
use crate::state::metadata_validator::{zero_staking_info, StakingInfo};
use crate::state::prefixes::{key_bytes, ACCRUED_FEES_KEY, CURRENT_SUPPLY_KEY, FEE_STATE_KEY, HEIGHT_KEY, L1_VALIDATOR_EXCESS_KEY, LAST_ACCEPTED_KEY, TIMESTAMP_KEY};
use crate::state::staker::{member_key, MemberKey, Staker};
use crate::state::stakers::{member_of, Stakers};
use crate::state::storage::ByteSpace;
use crate::state::validator_sets::{current_keys, current_sets, current_weights, lemma_listing, node_keys, node_weights, store_changes, subnet_sets, with_key_changes, with_weight_changes};
use crate::utxo::{addresses_of, output_addresses, Utxo};
use crate::wire::{unversioned, List};

verus! {

/// The key of an output within the index by address: the address, then the
/// output.
#[derive(Clone, Copy, Debug)]
struct AddrKey {
    addr: ShortId,
    id: Id,
}

impl AddrKey {
    fn bytes(&self) -> (r: Vec<u8>)
        ensures
            r@ == self.rank(),
    {
        let mut out: Vec<u8> = Vec::new();
        out.extend_from_slice(self.addr.bytes.as_slice());
        out.extend_from_slice(self.id.as_bytes());
        assert(out@ =~= self.rank());
        out
    }
}

impl Key for AddrKey {
    closed spec fn rank(&self) -> Seq<u8> {
        self.addr@ + self.id@
    }

    fn precedes(&self, other: &AddrKey) -> (r: bool) {
        let a = self.bytes();
        let b = other.bytes();
        bytes_lt(a.as_slice(), b.as_slice())
    }

    fn same(&self, other: &AddrKey) -> (r: bool) {
        let a = self.bytes();
        let b = other.bytes();
        bytes_eq(a.as_slice(), b.as_slice())
    }

    fn copied(&self) -> (r: AddrKey) {
        *self
    }
}

/// Which outputs each address owns: the keys are an address and an output.
pub type AddressIndex = Map<Seq<u8>, ()>;

/// The addresses that own the output with the given bytes: none where they do
/// not hold an output.
pub open spec fn utxo_addresses(bytes: Seq<u8>) -> Seq<Seq<u8>> {
    match unversioned::<Utxo>(0x7fff_ffff, bytes) {
        Ok(u) => addresses_of(u.out),
        Err(_) => Seq::empty(),
    }
}

/// The index with the output `id` under each of `addrs`.
pub open spec fn indexed(index: AddressIndex, addrs: Seq<Seq<u8>>, id: Seq<u8>) -> AddressIndex
    decreases addrs.len(),
{
    if addrs.len() == 0 {
        index
    } else {
        indexed(index, addrs.drop_last(), id).insert(addrs.last() + id, ())
    }
}

/// The index without the output `id` under any of `addrs`.
pub open spec fn unindexed(index: AddressIndex, addrs: Seq<Seq<u8>>, id: Seq<u8>) -> AddressIndex
    decreases addrs.len(),
{
    if addrs.len() == 0 {
        index
    } else {
        unindexed(index, addrs.drop_last(), id).remove(addrs.last() + id)
    }
}

/// Whether the output `id` is listed under each of `addrs`.
pub open spec fn listed(index: AddressIndex, addrs: Seq<Seq<u8>>, id: Seq<u8>) -> bool {
    forall|i: int| 0 <= i < addrs.len() ==> index.contains_key(#[trigger] addrs[i] + id)
}

/// Whether every output is listed under each address that owns it.
pub open spec fn all_listed(utxos: Map<Seq<u8>, Seq<u8>>, index: AddressIndex) -> bool {
    forall|id: Seq<u8>| #[trigger]
        utxos.contains_key(id) ==> id.len() == 32 && listed(index, utxo_addresses(utxos[id]), id)
}

proof fn lemma_indexed(index: AddressIndex, addrs: Seq<Seq<u8>>, id: Seq<u8>, k: Seq<u8>)
    ensures
        index.contains_key(k) ==> indexed(index, addrs, id).contains_key(k),
        forall|i: int|
            0 <= i < addrs.len() ==> indexed(index, addrs, id).contains_key(
                #[trigger] addrs[i] + id,
            ),
    decreases addrs.len(),
{
    if addrs.len() > 0 {
        let a = addrs.drop_last();
        lemma_indexed(index, a, id, k);
        assert forall|i: int| 0 <= i < addrs.len() implies indexed(index, addrs, id).contains_key(
            #[trigger] addrs[i] + id,
        ) by {
            if i < a.len() {
                assert(a[i] == addrs[i]);
            }
        }
    }
}

proof fn lemma_unindexed(
    index: AddressIndex,
    addrs: Seq<Seq<u8>>,
    id: Seq<u8>,
    addr: Seq<u8>,
    other: Seq<u8>,
)
    requires
        id.len() == 32,
        other.len() == 32,
        id != other,
    ensures
        unindexed(index, addrs, id).contains_key(addr + other) == index.contains_key(addr + other),
    decreases addrs.len(),
{
    if addrs.len() > 0 {
        lemma_unindexed(index, addrs.drop_last(), id, addr, other);
        let a = addrs.last() + id;
        let b = addr + other;
        if a == b {
            assert(a.skip(a.len() - 32) =~= id);
            assert(b.skip(b.len() - 32) =~= other);
        }
    }
}

/// `r` is a page of the outputs that `addr` owns: those behind `previous`, in
/// increasing order, and no more than `limit` of them.
pub open spec fn is_page(
    index: AddressIndex,
    addr: Seq<u8>,
    previous: Seq<u8>,
    limit: nat,
    r: Seq<Seq<u8>>,
) -> bool {
    &&& r.len() <= limit
    &&& increasing(r)
    &&& forall|i: int|
        0 <= i < r.len() ==> (#[trigger] r[i]).len() == 32 && index.contains_key(addr + r[i])
            && lex_lt(previous, r[i])
    &&& forall|id: Seq<u8>|
        id.len() == 32 && #[trigger] index.contains_key(addr + id) && lex_lt(previous, id)
            ==> r.contains(id) || (r.len() == limit && (limit > 0 ==> lex_lt(r.last(), id)))
}

proof fn lemma_page_starts_the_list(
    index: AddressIndex,
    addr: Seq<u8>,
    previous: Seq<u8>,
    limit: nat,
    page: Seq<Seq<u8>>,
    all: Seq<Seq<u8>>,
)
    requires
        limit > 0,
        is_page(index, addr, previous, limit, page),
        increasing(all),
        forall|i: int|
            0 <= i < all.len() ==> (#[trigger] all[i]).len() == 32 && index.contains_key(
                addr + all[i],
            ) && lex_lt(previous, all[i]),
        forall|i: int| 0 <= i < page.len() ==> all.contains(#[trigger] page[i]),
    ensures
        page.len() <= all.len(),
        page == all.take(page.len() as int),
        page.len() < limit ==> page == all,
{
    let n = page.len();
    let cut = if n == 0 {
        all.take(0)
    } else {
        let p = all.index_of(page.last());
        assert(page.last() == page[n - 1]);
        assert(all.contains(page[n - 1]));
        all.take(p + 1)
    };
    assert forall|i: int| 0 <= i < cut.len() implies page.contains(#[trigger] cut[i]) by {
        let id = all[i];
        assert(cut[i] == id);
        assert(index.contains_key(addr + id));
        if !page.contains(id) {
            let p = all.index_of(page.last());
            assert(all[p] == page.last());
            if i < p {
                lemma_lex_antisymmetric(all[i], all[p]);
            }
        }
    }
    assert forall|i: int| 0 <= i < n implies cut.contains(#[trigger] page[i]) by {
        let q = all.index_of(page[i]);
        assert(all.contains(page[i]));
        let p = all.index_of(page.last());
        assert(all[p] == page[n - 1]);
        if q > p {
            lemma_lex_antisymmetric(all[p], all[q]);
            if i < n - 1 {
                lemma_lex_antisymmetric(page[i], page[n - 1]);
            }
        }
        assert(cut[q] == page[i]);
    }
    lemma_increasing_unique(page, cut);
    if n < limit {
        assert forall|i: int| 0 <= i < all.len() implies page.contains(#[trigger] all[i]) by {
            assert(index.contains_key(addr + all[i]));
        }
        lemma_increasing_unique(page, all);
    }
}

/// An output of the whole list stands in the page or behind it: there is no room
/// in the list for all of both and more.
proof fn lemma_in_page_or_rest(
    index: AddressIndex,
    addr: Seq<u8>,
    previous: Seq<u8>,
    limit: nat,
    most: nat,
    page: Seq<Seq<u8>>,
    rest: Seq<Seq<u8>>,
    whole: Seq<Seq<u8>>,
    i: int,
)
    requires
        0 < limit <= most,
        is_page(index, addr, previous, limit, page),
        is_page(index, addr, previous, most, whole),
        page.len() > 0,
        is_page(index, addr, page.last(), most, rest),
        increasing(page + rest),
        0 <= i < whole.len(),
    ensures
        (page + rest).contains(whole[i]),
{
    let both = page + rest;
    let id = whole[i];
    let end = page.last();
    assert(index.contains_key(addr + id));
    if page.contains(id) {
        assert(both[page.index_of(id)] == id);
    } else if rest.contains(id) {
        assert(both[page.len() + rest.index_of(id)] == id);
    } else {
        assert(rest.len() == most && lex_lt(rest.last(), id));
        assert(rest.last() == rest[rest.len() - 1]);
        assert(both[both.len() - 1] == rest.last());
        assert forall|x: Seq<u8>| #[trigger] both.to_set().contains(x) implies whole.to_set().contains(
            x,
        ) by {
            let j = both.index_of(x);
            assert(both.contains(x));
            assert(both[j] == x);
            if j < both.len() - 1 {
                assert(lex_lt(both[j], both[both.len() - 1]));
                lemma_lex_transitive(x, rest.last(), id);
            }
            if j < page.len() {
                assert(page[j] == x);
            } else {
                assert(rest[j - page.len()] == x);
                assert(end == page[page.len() - 1]);
                lemma_lex_transitive(previous, end, x);
            }
            assert(index.contains_key(addr + x));
            if !whole.contains(x) {
                assert(whole.last() == whole[whole.len() - 1]);
                if i < whole.len() - 1 {
                    assert(lex_lt(whole[i], whole[whole.len() - 1]));
                    lemma_lex_transitive(id, whole.last(), x);
                }
                lemma_lex_antisymmetric(x, id);
            }
        }
        assert(both.no_duplicates()) by {
            lemma_increasing_distinct(both);
        }
        both.unique_seq_to_set();
        whole.lemma_cardinality_of_set();
        vstd::seq_lib::seq_to_set_is_finite(whole);
        vstd::set_lib::lemma_len_subset(both.to_set(), whole.to_set());
    }
}

/// Pages put together give the whole list: a page, and up to `most` outputs
/// behind its last one, begin with the first `most` outputs behind where the
/// page started. Where there are no more than `most` in all, nothing is left
/// over. Where the page is empty there is nothing.
pub proof fn pages_make_up_the_list(
    index: AddressIndex,
    addr: Seq<u8>,
    previous: Seq<u8>,
    limit: nat,
    most: nat,
    page: Seq<Seq<u8>>,
    rest: Seq<Seq<u8>>,
    whole: Seq<Seq<u8>>,
)
    requires
        0 < limit <= most,
        is_page(index, addr, previous, limit, page),
        is_page(index, addr, previous, most, whole),
        page.len() > 0 ==> is_page(index, addr, page.last(), most, rest),
    ensures
        page.len() == 0 ==> whole.len() == 0,
        page.len() > 0 ==> whole.len() <= page.len() + rest.len() && whole == (page + rest).take(
            whole.len() as int,
        ),
        page.len() > 0 && (whole.len() < most || page.len() + rest.len() <= most) ==> whole == page
            + rest,
{
    if page.len() == 0 {
        if whole.len() > 0 {
            assert(index.contains_key(addr + whole[0]));
            assert(page.contains(whole[0]));
        }
    } else {
        let both = page + rest;
        let end = page.last();
        assert(end == page[page.len() - 1]);
        assert forall|i: int, j: int| 0 <= i < j < both.len() implies lex_lt(
            #[trigger] both[i],
            #[trigger] both[j],
        ) by {
            if i < page.len() && j >= page.len() {
                assert(both[j] == rest[j - page.len()]);
                if i < page.len() - 1 {
                    assert(lex_lt(page[i], page[page.len() - 1]));
                    lemma_lex_transitive(page[i], end, both[j]);
                }
            } else if i >= page.len() {
                assert(both[i] == rest[i - page.len()] && both[j] == rest[j - page.len()]);
            }
        }
        assert forall|i: int| 0 <= i < both.len() implies (#[trigger] both[i]).len() == 32
            && index.contains_key(addr + both[i]) && lex_lt(previous, both[i]) by {
            if i >= page.len() {
                assert(both[i] == rest[i - page.len()]);
                lemma_lex_transitive(previous, end, both[i]);
            }
        }
        assert forall|i: int| 0 <= i < whole.len() implies both.contains(#[trigger] whole[i]) by {
            lemma_in_page_or_rest(index, addr, previous, limit, most, page, rest, whole, i);
        }
        lemma_page_starts_the_list(index, addr, previous, most, whole, both);
        if both.len() <= most && whole.len() == most {
            assert(both.take(most as int) =~= both);
        }
    }
}

/// The key that the supply of `subnet` is stored under.
pub open spec fn supply_key_of(subnet: Seq<u8>) -> Seq<u8> {
    if subnet == empty_id() {
        key_bytes(CURRENT_SUPPLY_KEY)
    } else {
        key_bytes(CURRENT_SUPPLY_KEY) + subnet
    }
}

/// The stored state.
#[verifier::ext_equal]
pub struct StateView {
    /// What blocks read and change.
    pub chain: ChainView,
    /// The single values as they are stored.
    pub singletons: Map<Seq<u8>, Seq<u8>>,
    /// The subnets as they are stored.
    pub subnet_rows: Map<Seq<u8>, Seq<u8>>,
    /// The chains as they are stored: the keys are a subnet and a chain.
    pub chain_rows: Map<Seq<u8>, ()>,
    /// The rewards as they are stored: the keys are a transaction and a place.
    pub reward_rows: Map<Seq<u8>, Seq<u8>>,
    /// Which outputs each address owns.
    pub utxo_index: AddressIndex,
    /// The bytes of the accepted blocks.
    pub blocks: Map<Seq<u8>, Seq<u8>>,
    /// The accepted block at each height as it is stored.
    pub block_rows: Map<Seq<u8>, Seq<u8>>,
    /// The accepted block at each height.
    pub block_index: Map<Seq<u8>, Seq<u8>>,
    /// The block that was accepted last.
    pub last_accepted: Seq<u8>,
    /// The height of the block that was accepted last.
    pub height: u64,
    /// The stored changes of weights.
    pub weight_diffs: Map<Seq<u8>, Seq<u8>>,
    /// The stored changes of keys.
    pub key_diffs: Map<Seq<u8>, Seq<u8>>,
}

/// What the stored state holds besides what blocks change in it.
#[verifier::ext_equal]
pub struct Ledger {
    /// The bytes of the accepted blocks.
    pub blocks: Map<Seq<u8>, Seq<u8>>,
    /// The accepted block at each height as it is stored.
    pub block_rows: Map<Seq<u8>, Seq<u8>>,
    /// The accepted block at each height.
    pub block_index: Map<Seq<u8>, Seq<u8>>,
    /// The block that was accepted last.
    pub last_accepted: Seq<u8>,
    /// The height of the block that was accepted last.
    pub height: u64,
    /// The stored changes of weights.
    pub weight_diffs: Map<Seq<u8>, Seq<u8>>,
    /// The stored changes of keys.
    pub key_diffs: Map<Seq<u8>, Seq<u8>>,
}

impl StateView {
    /// What there is besides what blocks change.
    pub open spec fn ledger(self) -> Ledger {
        Ledger {
            blocks: self.blocks,
            block_rows: self.block_rows,
            block_index: self.block_index,
            last_accepted: self.last_accepted,
            height: self.height,
            weight_diffs: self.weight_diffs,
            key_diffs: self.key_diffs,
        }
    }

    /// A state in which nothing is stored.
    pub open spec fn empty() -> StateView {
        StateView {
            chain: ChainView::empty(),
            singletons: Map::empty(),
            subnet_rows: Map::empty(),
            chain_rows: Map::empty(),
            reward_rows: Map::empty(),
            utxo_index: Map::empty(),
            blocks: Map::empty(),
            block_rows: Map::empty(),
            block_index: Map::empty(),
            last_accepted: empty_id(),
            height: 0,
            weight_diffs: Map::empty(),
            key_diffs: Map::empty(),
        }
    }

    /// With `value` stored as the single value `key`.
    pub open spec fn stored(self, key: &str, value: Seq<u8>) -> StateView {
        StateView { singletons: self.singletons.insert(key_bytes(key), value), ..self }
    }
}

/// The stored state.
pub struct State {
    utxos: ByteSpace,
    utxo_index: OrdMap<AddrKey, ()>,
    reward_rows: OrdMap<Vec<u8>, Vec<u8>>,
    subnet_rows: ByteSpace,
    subnet_owners: ByteSpace,
    subnet_managers: ByteSpace,
    chain_rows: OrdMap<Vec<u8>, ()>,
    singletons: ByteSpace,
    weight_diffs: WeightDiffStore,
    key_diffs: PublicKeyDiffStore,
    blocks: ByteSpace,
    block_rows: ByteSpace,
    txs: ByteSpace,
    timestamp: u64,
    fee_state: GasState,
    l1_validator_excess: u64,
    accrued_fees: u64,
    supply: OrdMap<Id, u64>,
    last_accepted: Id,
    height: u64,
    current: Stakers,
    pending: Stakers,
    l1_validators: OrdMap<Id, L1Validator>,
    staking_info: OrdMap<MemberKey, StakingInfo>,
    reward_utxos: OrdMap<Id, List<Vec<u8>>>,
    subnet_ids: List<Id>,
    chain_index: OrdMap<Id, List<Id>>,
    block_index: OrdMap<u64, Id>,
}

impl View for State {
    type V = StateView;

    closed spec fn view(&self) -> StateView {
        StateView {
            chain: ChainView {
                timestamp: self.timestamp,
                fee_state: self.fee_state,
                l1_validator_excess: self.l1_validator_excess,
                accrued_fees: self.accrued_fees,
                supply: total(self.supply@, 0),
                utxos: self.utxos@,
                current: self.current@,
                pending: self.pending@,
                staking_info: total(self.staking_info@, zero_staking_info()),
                l1_validators: self.l1_validators@,
                subnets: self.subnet_ids@,
                subnet_owners: self.subnet_owners@,
                subnet_managers: self.subnet_managers@,
                chains: total(self.chain_index@, Seq::empty()),
                reward_utxos: total(self.reward_utxos@, Seq::empty()),
                txs: self.txs@,
            },
            singletons: self.singletons@,
            subnet_rows: self.subnet_rows@,
            chain_rows: self.chain_rows@,
            reward_rows: self.reward_rows@,
            utxo_index: self.utxo_index@,
            blocks: self.blocks@,
            block_rows: self.block_rows@,
            block_index: self.block_index@,
            last_accepted: self.last_accepted@,
            height: self.height,
            weight_diffs: self.weight_diffs@,
            key_diffs: self.key_diffs@,
        }
    }
}

impl State {
    closed spec fn consistent(&self) -> bool {
        &&& self.sound()
        &&& all_listed(self.utxos@, self.utxo_index@)
    }

    /// The parts of the state are consistent.
    closed spec fn sound(&self) -> bool {
        &&& self.utxos.wf()
        &&& self.subnet_rows.wf()
        &&& self.subnet_owners.wf()
        &&& self.subnet_managers.wf()
        &&& self.singletons.wf()
        &&& self.weight_diffs.wf()
        &&& self.key_diffs.wf()
        &&& self.blocks.wf()
        &&& self.block_rows.wf()
        &&& self.txs.wf()
        &&& self.current.wf()
        &&& self.pending.wf()
        &&& keyed_by_id(self.l1_validators@)
        &&& forall|k: Seq<u8>| #[trigger]
            self.staking_info@.contains_key(k) ==> self.current@.validators.contains_key(k)
    }

    /// Every unspent output is found under each address that owns it.
    pub proof fn outputs_are_listed(&self, id: Seq<u8>)
        requires
            self.wf(),
            self@.chain.utxos.contains_key(id),
        ensures
            id.len() == 32,
            listed(self@.utxo_index, utxo_addresses(self@.chain.utxos[id]), id),
    {
    }

    /// A state in which nothing is stored.
    pub fn new() -> (r: State)
        ensures
            r.wf(),
            r@ == StateView::empty(),
    {
        let r = State {
            utxos: ByteSpace::new(),
            utxo_index: OrdMap::new(),
            reward_rows: OrdMap::new(),
            subnet_rows: ByteSpace::new(),
            subnet_owners: ByteSpace::new(),
            subnet_managers: ByteSpace::new(),
            chain_rows: OrdMap::new(),
            singletons: ByteSpace::new(),
            weight_diffs: WeightDiffStore::new(),
            key_diffs: PublicKeyDiffStore::new(),
            blocks: ByteSpace::new(),
            block_rows: ByteSpace::new(),
            txs: ByteSpace::new(),
            timestamp: 0,
            fee_state: GasState { capacity: 0, excess: 0 },
            l1_validator_excess: 0,
            accrued_fees: 0,
            supply: OrdMap::new(),
            last_accepted: Id::empty(),
            height: 0,
            current: Stakers::new(),
            pending: Stakers::new(),
            l1_validators: OrdMap::new(),
            staking_info: OrdMap::new(),
            reward_utxos: OrdMap::new(),
            subnet_ids: List { items: Vec::new() },
            chain_index: OrdMap::new(),
            block_index: OrdMap::new(),
        };
        assert(r@ =~= StateView::empty());
        r
    }

    /// A state of its own that holds the same: what is changed in one does not
    /// show in the other.
    pub fn snapshot(&self) -> (r: State)
        requires
            self.wf(),
        ensures
            r.wf(),
            r@ == self@,
    {
        let r = State {
            utxos: self.utxos.copy(),
            utxo_index: self.utxo_index.dup(),
            reward_rows: self.reward_rows.dup(),
            subnet_rows: self.subnet_rows.copy(),
            subnet_owners: self.subnet_owners.copy(),
            subnet_managers: self.subnet_managers.copy(),
            chain_rows: self.chain_rows.dup(),
            singletons: self.singletons.copy(),
            weight_diffs: self.weight_diffs.copy(),
            key_diffs: self.key_diffs.copy(),
            blocks: self.blocks.copy(),
            block_rows: self.block_rows.copy(),
            txs: self.txs.copy(),
            timestamp: self.timestamp,
            fee_state: self.fee_state,
            l1_validator_excess: self.l1_validator_excess,
            accrued_fees: self.accrued_fees,
            supply: self.supply.dup(),
            last_accepted: self.last_accepted,
            height: self.height,
            current: self.current.copy(),
            pending: self.pending.copy(),
            l1_validators: self.l1_validators.dup(),
            staking_info: self.staking_info.dup(),
            reward_utxos: self.reward_utxos.dup(),
            subnet_ids: self.subnet_ids.dup(),
            chain_index: self.chain_index.dup(),
            block_index: self.block_index.dup(),
        };
        assert(r@ =~= self@);
        r
    }
}

/// Whether `id` is among `ids`.
pub fn contains_id(ids: &Vec<Id>, id: &Id) -> (r: bool)
    ensures
        r == id_bytes(ids@).contains(id@),
{
    let n: usize = ids.len();
    let mut i: usize = 0;
    while i < n
        invariant
            i <= n,
            n == ids@.len(),
            forall|j: int| 0 <= j < i ==> (#[trigger] id_bytes(ids@)[j]) != id@,
        decreases n - i,
    {
        if ids[i].same(id) {
            assert(id_bytes(ids@)[i as int] == id@);
            return true;
        }
        i += 1;
    }
    false
}

/// A copy of `ids`.
pub fn copy_ids(ids: &Vec<Id>) -> (r: Vec<Id>)
    ensures
        id_bytes(r@) == id_bytes(ids@),
{
    let n: usize = ids.len();
    let mut out: Vec<Id> = Vec::new();
    let mut i: usize = 0;
    while i < n
        invariant
            i <= n,
            n == ids@.len(),
            out@ == ids@.take(i as int),
        decreases n - i,
    {
        out.push(ids[i]);
        assert(out@ =~= ids@.take(i + 1));
        i += 1;
    }
    assert(out@ =~= ids@);
    out
}

/// A copy of `blobs`.
pub fn copy_blobs(blobs: &Vec<Vec<u8>>) -> (r: Vec<Vec<u8>>)
    ensures
        blob_bytes(r@) == blob_bytes(blobs@),
{
    let n: usize = blobs.len();
    let mut out: Vec<Vec<u8>> = Vec::new();
    let mut i: usize = 0;
    while i < n
        invariant
            i <= n,
            n == blobs@.len(),
            blob_bytes(out@) == blob_bytes(blobs@).take(i as int),
        decreases n - i,
    {
        let ghost before = out@;
        out.push(bytes_copy(blobs[i].as_slice()));
        assert(blob_bytes(out@) =~= blob_bytes(before).push(blobs@[i as int]@));
        assert(blob_bytes(out@) =~= blob_bytes(blobs@).take(i + 1));
        i += 1;
    }
    assert(blob_bytes(blobs@).take(n as int) =~= blob_bytes(blobs@));
    out
}

impl State {
    fn write_u64_singleton(&mut self, key: &str, v: u64)
        requires
            old(self).wf(),
        ensures
            final(self).wf(),
            final(self)@ == old(self)@.stored(key, be(v as nat, 8)),
    {
        let b = u64_bytes(v);
        self.singletons.put(key.as_bytes(), b.as_slice());
        assert(self@ =~= old(self)@.stored(key, be(v as nat, 8)));
    }

    fn supply_key(subnet: &Id) -> (r: Vec<u8>)
        ensures
            r@ == supply_key_of(subnet@),
    {
        let mut k = bytes_copy(CURRENT_SUPPLY_KEY.as_bytes());
        if !subnet.is_empty() {
            k.extend_from_slice(subnet.as_bytes());
        }
        assert(k@ =~= supply_key_of(subnet@));
        k
    }

    /// Puts the output `id` with the given bytes under the addresses that own
    /// it.
    fn index_utxo(&mut self, id: Id, bytes: &[u8])
        requires
            old(self).sound(),
        ensures
            final(self).sound(),
            final(self)@ == (StateView {
                utxo_index: indexed(old(self)@.utxo_index, utxo_addresses(bytes@), id@),
                ..old(self)@
            }),
    {
        let utxo = match Utxo::unmarshal(bytes) {
            Ok(u) => u,
            Err(_) => {
                assert(self@ =~= (StateView { utxo_index: self@.utxo_index, ..self@ }));
                return;
            },
        };
        let addrs = output_addresses(&utxo.out);
        let ghost av = utxo_addresses(bytes@);
        assert(addrs@.map_values(|a: ShortId| a@) == av);
        let n: usize = addrs.len();
        let mut i: usize = 0;
        assert(av.take(0).len() == 0);
        while i < n
            invariant
                i <= n,
                n == addrs@.len(),
                addrs@.map_values(|a: ShortId| a@) == av,
                self.sound(),
                self@ == (StateView {
                    utxo_index: indexed(old(self)@.utxo_index, av.take(i as int), id@),
                    ..old(self)@
                }),
            decreases n - i,
        {
            let k = AddrKey { addr: addrs[i], id };
            let ghost before = self@;
            self.utxo_index.insert(k, ());
            proof {
                assert(av.take(i + 1).drop_last() =~= av.take(i as int));
                assert(av.take(i + 1).last() == addrs@[i as int]@);
                assert(self@ =~= (StateView {
                    utxo_index: indexed(old(self)@.utxo_index, av.take(i + 1), id@),
                    ..old(self)@
                }));
            }
            i += 1;
        }
        assert(av.take(n as int) =~= av);
    }

    /// Takes the stored output `id` from under the addresses that own it.
    fn unindex_utxo(&mut self, id: Id)
        requires
            old(self).sound(),
        ensures
            final(self).sound(),
            final(self)@ == (StateView {
                utxo_index: if old(self)@.chain.utxos.contains_key(id@) {
                    unindexed(
                        old(self)@.utxo_index,
                        utxo_addresses(old(self)@.chain.utxos[id@]),
                        id@,
                    )
                } else {
                    old(self)@.utxo_index
                },
                ..old(self)@
            }),
    {
        let bytes = match self.utxos.get(id.as_bytes()) {
            Ok(b) => b,
            Err(_) => {
                assert(self@ =~= (StateView { utxo_index: self@.utxo_index, ..self@ }));
                return;
            },
        };
        let utxo = match Utxo::unmarshal(bytes.as_slice()) {
            Ok(u) => u,
            Err(_) => {
                assert(self@ =~= (StateView { utxo_index: self@.utxo_index, ..self@ }));
                return;
            },
        };
        let addrs = output_addresses(&utxo.out);
        let ghost av = utxo_addresses(bytes@);
        assert(addrs@.map_values(|a: ShortId| a@) == av);
        let n: usize = addrs.len();
        let mut i: usize = 0;
        assert(av.take(0).len() == 0);
        while i < n
            invariant
                i <= n,
                n == addrs@.len(),
                addrs@.map_values(|a: ShortId| a@) == av,
                self.sound(),
                self@ == (StateView {
                    utxo_index: unindexed(old(self)@.utxo_index, av.take(i as int), id@),
                    ..old(self)@
                }),
            decreases n - i,
        {
            let k = AddrKey { addr: addrs[i], id };
            self.utxo_index.remove(&k);
            proof {
                assert(av.take(i + 1).drop_last() =~= av.take(i as int));
                assert(av.take(i + 1).last() == addrs@[i as int]@);
                assert(self@ =~= (StateView {
                    utxo_index: unindexed(old(self)@.utxo_index, av.take(i + 1), id@),
                    ..old(self)@
                }));
            }
            i += 1;
        }
        assert(av.take(n as int) =~= av);
    }

    /// The outputs that `addr` owns, behind `previous` and in increasing
    /// order, no more than `limit` of them.
    pub fn utxo_ids(&self, addr: &ShortId, previous: Id, limit: usize) -> (r: Vec<Id>)
        requires
            self.wf(),
        ensures
            is_page(self@.utxo_index, addr@, previous@, limit as nat, id_bytes(r@)),
    {
        let start = AddrKey { addr: *addr, id: previous };
        let n: usize = self.utxo_index.len();
        let mut i: usize = self.utxo_index.first_from(&start);
        let ghost ks = self.utxo_index.keys();
        let ghost sk = start.rank();
        if i < n && self.utxo_index.key_at(i).same(&start) {
            i += 1;
        }
        let ghost p0 = i as int;
        proof {
            assert forall|j: int| p0 <= j < n implies lex_lt(sk, #[trigger] ks[j]) by {
                lemma_lex_total(sk, ks[j]);
                if p0 > 0 && ks[p0 - 1] == sk {
                    assert(lex_lt(ks[p0 - 1], ks[j]));
                } else if ks[j] == sk {
                    if p0 < j {
                        assert(lex_lt(ks[p0], ks[j]));
                    }
                }
            }
            assert forall|j: int| 0 <= j < p0 implies !lex_lt(sk, #[trigger] ks[j]) by {
                if ks[j] == sk {
                    if lex_lt(sk, sk) {
                        lemma_lex_antisymmetric(sk, sk);
                    }
                } else {
                    lemma_lex_antisymmetric(ks[j], sk);
                }
            }
        }
        let mut out: Vec<Id> = Vec::new();
        while i < n && out.len() < limit
            invariant
                p0 <= i <= n,
                n == ks.len(),
                ks == self.utxo_index.keys(),
                0 <= p0,
                increasing(ks),
                out@.len() == i - p0,
                out@.len() <= limit,
                sk == addr@ + previous@,
                forall|j: int| p0 <= j < n ==> lex_lt(sk, #[trigger] ks[j]),
                forall|j: int|
                    0 <= j < out@.len() ==> ks[p0 + j] == addr@ + (#[trigger] out@[j])@,
            ensures
                p0 <= i <= n,
                out@.len() == i - p0,
                out@.len() <= limit,
                forall|j: int|
                    0 <= j < out@.len() ==> ks[p0 + j] == addr@ + (#[trigger] out@[j])@,
                i == n || out@.len() == limit || ks[i as int].take(20) != addr@,
            decreases n - i,
        {
            let k = self.utxo_index.key_at(i);
            assert(ks[i as int].take(20) =~= k.addr@);
            if !bytes_eq(k.addr.bytes.as_slice(), addr.bytes.as_slice()) {
                break ;
            }
            out.push(k.id);
            assert(ks[i as int] == addr@ + k.id@);
            i += 1;
        }
        proof {
            let r = id_bytes(out@);
            let index = self.utxo_index@;
            assert forall|j: int| 0 <= j < r.len() implies (#[trigger] r[j]).len() == 32
                && index.contains_key(addr@ + r[j]) && lex_lt(previous@, r[j]) by {
                assert(r[j] == out@[j]@);
                assert(ks[p0 + j] == addr@ + r[j]);
                lemma_lex_shared_prefix(addr@, previous@, r[j]);
            }
            assert forall|a: int, b: int| 0 <= a < b < r.len() implies lex_lt(
                #[trigger] r[a],
                #[trigger] r[b],
            ) by {
                assert(r[a] == out@[a]@ && r[b] == out@[b]@);
                assert(lex_lt(ks[p0 + a], ks[p0 + b]));
                lemma_lex_shared_prefix(addr@, r[a], r[b]);
            }
            assert forall|id: Seq<u8>|
                id.len() == 32 && #[trigger] index.contains_key(addr@ + id) && lex_lt(
                    previous@,
                    id,
                ) implies r.contains(id) || (r.len() == limit && (limit > 0 ==> lex_lt(
                r.last(),
                id,
            ))) by {
                let k = addr@ + id;
                let q = ks.index_of(k);
                assert(ks[q] == k);
                lemma_lex_shared_prefix(addr@, previous@, id);
                assert(q >= p0);
                if q < i {
                    let j = q - p0;
                    assert(ks[p0 + j] == addr@ + out@[j]@);
                    assert(k.skip(20) =~= id);
                    assert((addr@ + out@[j]@).skip(20) =~= out@[j]@);
                    assert(r[j] == id);
                } else if out@.len() == limit {
                    if limit > 0 {
                        let j = out@.len() - 1;
                        assert(ks[p0 + j] == addr@ + out@[j]@);
                        assert(lex_lt(ks[p0 + j], ks[q]));
                        lemma_lex_shared_prefix(addr@, out@[j]@, id);
                    }
                } else {
                    assert(sk.take(20) =~= addr@);
                    assert(k.take(20) =~= addr@);
                    if q > i {
                        assert(lex_lt(ks[i as int], ks[q]));
                        if lex_lt(ks[i as int], sk) {
                            lemma_lex_antisymmetric(sk, ks[i as int]);
                        }
                        assert(self.utxo_index@.contains_key(ks[i as int]));
                        lemma_prefix_is_convex(addr@, sk, ks[i as int], k);
                    }
                }
            }
        }
        out
    }

    /// The bytes of the accepted block `id`.
    pub fn get_block(&self, id: Id) -> (r: Result<Vec<u8>>)
        requires
            self.wf(),
        ensures
            r is Ok <==> self@.blocks.contains_key(id@),
            r matches Ok(b) ==> b@ == self@.blocks[id@],
            r matches Err(e) ==> e == not_found(),
    {
        self.blocks.get(id.as_bytes())
    }

    /// Stores an accepted block, and that it is the one at its height.
    pub fn add_block(&mut self, id: Id, height: u64, bytes: &[u8])
        requires
            old(self).wf(),
        ensures
            final(self).wf(),
            final(self)@ == (StateView {
                blocks: old(self)@.blocks.insert(id@, bytes@),
                block_rows: old(self)@.block_rows.insert(be(height as nat, 8), id@),
                block_index: old(self)@.block_index.insert(be(height as nat, 8), id@),
                ..old(self)@
            }),
    {
        self.blocks.put(id.as_bytes(), bytes);
        let h = u64_bytes(height);
        self.block_rows.put(h.as_slice(), id.as_bytes());
        self.block_index.insert(height, id);
        assert(self@ =~= (StateView {
            blocks: old(self)@.blocks.insert(id@, bytes@),
            block_rows: old(self)@.block_rows.insert(be(height as nat, 8), id@),
            block_index: old(self)@.block_index.insert(be(height as nat, 8), id@),
            ..old(self)@
        }));
    }

    /// The accepted block at `height`.
    pub fn get_block_id_at_height(&self, height: u64) -> (r: Option<Id>)
        requires
            self.wf(),
        ensures
            r is Some <==> self@.block_index.contains_key(be(height as nat, 8)),
            r matches Some(id) ==> id@ == self@.block_index[be(height as nat, 8)],
    {
        match self.block_index.get(&height) {
            Some(id) => Some(*id),
            None => None,
        }
    }

    /// The block that was accepted last.
    pub fn last_accepted(&self) -> (r: Id)
        ensures
            r@ == self@.last_accepted,
    {
        self.last_accepted
    }

    /// Sets the block that was accepted last.
    pub fn set_last_accepted(&mut self, id: Id)
        requires
            old(self).wf(),
        ensures
            final(self).wf(),
            final(self)@ == (StateView { last_accepted: id@, ..old(self)@ }).stored(
                LAST_ACCEPTED_KEY,
                id@,
            ),
    {
        self.last_accepted = id;
        self.singletons.put(LAST_ACCEPTED_KEY.as_bytes(), id.as_bytes());
        assert(self@ =~= (StateView { last_accepted: id@, ..old(self)@ }).stored(
            LAST_ACCEPTED_KEY,
            id@,
        ));
    }

    /// The height of the block that was accepted last.
    pub fn height(&self) -> (r: u64)
        ensures
            r == self@.height,
    {
        self.height
    }

    /// Sets the height of the block that was accepted last.
    pub fn set_height(&mut self, height: u64)
        requires
            old(self).wf(),
        ensures
            final(self).wf(),
            final(self)@ == (StateView { height, ..old(self)@ }).stored(
                HEIGHT_KEY,
                be(height as nat, 8),
            ),
    {
        self.height = height;
        let ghost mid = StateView { height, ..old(self)@ };
        assert(self@ =~= mid);
        self.write_u64_singleton(HEIGHT_KEY, height);
    }

    /// The current stakers.
    pub(crate) fn current_set(&self) -> (r: Stakers)
        requires
            self.wf(),
        ensures
            r.wf(),
            r@ == self@.chain.current,
    {
        self.current.copy()
    }

    /// The pending stakers.
    pub(crate) fn pending_set(&self) -> (r: Stakers)
        requires
            self.wf(),
        ensures
            r.wf(),
            r@ == self@.chain.pending,
    {
        self.pending.copy()
    }

    /// The L1 validators.
    pub(crate) fn l1_set(&self) -> (r: OrdMap<Id, L1Validator>)
        requires
            self.wf(),
        ensures
            r@ == self@.chain.l1_validators,
    {
        self.l1_validators.dup()
    }

    /// The weight of every node that has current stakers.
    pub fn current_validator_weights(&self) -> (r: OrdMap<MemberKey, u64>)
        requires
            self.wf(),
        ensures
            r@ == current_weights(self@.chain.current.set),
    {
        let list = self.current_stakers();
        proof {
            lemma_listing(self@.chain.current.set, list@);
        }
        node_weights(&list)
    }

    /// The key, in uncompressed form, of every node that has a current
    /// validator with one.
    pub fn current_validator_public_keys(&self) -> (r: OrdMap<MemberKey, Vec<u8>>)
        requires
            self.wf(),
        ensures
            r@ == current_keys(self@.chain.current.set),
    {
        let list = self.current_stakers();
        proof {
            lemma_listing(self@.chain.current.set, list@);
        }
        node_keys(&list)
    }

    /// The validators of every subnet, with the weight and the key of each.
    pub fn current_validator_sets(&self) -> (r: AllSets)
        requires
            self.wf(),
        ensures
            r@ == current_sets(self@.chain.current.set),
    {
        let list = self.current_stakers();
        proof {
            lemma_listing(self@.chain.current.set, list@);
        }
        subnet_sets(&list)
    }

    /// Stores, at `height`, the changes of weights and keys from before to
    /// after.
    pub fn write_validator_diffs(
        &mut self,
        height: u64,
        weights_before: &OrdMap<MemberKey, u64>,
        weights_after: &OrdMap<MemberKey, u64>,
        keys_before: &OrdMap<MemberKey, Vec<u8>>,
        keys_after: &OrdMap<MemberKey, Vec<u8>>,
    )
        requires
            old(self).wf(),
        ensures
            final(self).wf(),
            final(self)@ == (StateView {
                weight_diffs: with_weight_changes(
                    old(self)@.weight_diffs,
                    height,
                    weights_before@,
                    weights_after@,
                ),
                key_diffs: with_key_changes(
                    old(self)@.key_diffs,
                    height,
                    keys_before@,
                    keys_after@,
                ),
                ..old(self)@
            }),
    {
        store_changes(
            &mut self.weight_diffs,
            &mut self.key_diffs,
            height,
            weights_before,
            weights_after,
            keys_before,
            keys_after,
        );
        assert(self@ =~= (StateView {
            weight_diffs: self@.weight_diffs,
            key_diffs: self@.key_diffs,
            ..old(self)@
        }));
    }

    /// The stored changes of weights.
    pub fn weight_diff_store(&self) -> (r: &WeightDiffStore)
        requires
            self.wf(),
        ensures
            r.wf(),
            r@ == self@.weight_diffs,
    {
        &self.weight_diffs
    }

    /// The stored changes of keys.
    pub fn public_key_diff_store(&self) -> (r: &PublicKeyDiffStore)
        requires
            self.wf(),
        ensures
            r.wf(),
            r@ == self@.key_diffs,
    {
        &self.key_diffs
    }
}

impl Chain for State {
    type Rest = Ledger;

    open spec fn rest(&self) -> Ledger {
        self@.ledger()
    }

    closed spec fn wf(&self) -> bool {
        self.consistent()
    }

    open spec fn model(&self) -> ChainView {
        self@.chain
    }

    proof fn model_is_coherent(&self) {
        self.l1_validators.keys_are_finite();
    }

    fn timestamp(&self) -> (r: u64) {
        self.timestamp
    }

    fn set_timestamp(&mut self, t: u64)
        ensures
            final(self)@ == (StateView {
                chain: ChainView { timestamp: t, ..old(self)@.chain },
                ..old(self)@
            }).stored(TIMESTAMP_KEY, be(t as nat, 8)),
    {
        self.timestamp = t;
        let ghost mid = StateView {
            chain: ChainView { timestamp: t, ..old(self)@.chain },
            ..old(self)@
        };
        assert(self@ =~= mid);
        self.write_u64_singleton(TIMESTAMP_KEY, t);
    }

    fn current_supply(&self, subnet: Id) -> (r: Result<u64>) {
        match self.supply.get(&subnet) {
            Some(v) => Ok(*v),
            None => Ok(0),
        }
    }

    fn set_current_supply(&mut self, subnet: Id, supply: u64)
        ensures
            final(self)@ == (StateView {
                chain: ChainView {
                    supply: old(self)@.chain.supply.insert(subnet@, supply),
                    ..old(self)@.chain
                },
                singletons: old(self)@.singletons.insert(
                    supply_key_of(subnet@),
                    be(supply as nat, 8),
                ),
                ..old(self)@
            }),
    {
        proof {
            lemma_total_insert(self.supply@, 0, subnet@, supply);
        }
        self.supply.insert(subnet, supply);
        let key = State::supply_key(&subnet);
        let b = u64_bytes(supply);
        self.singletons.put(key.as_slice(), b.as_slice());
        assert(self@ =~= (StateView {
            chain: ChainView {
                supply: old(self)@.chain.supply.insert(subnet@, supply),
                ..old(self)@.chain
            },
            singletons: old(self)@.singletons.insert(supply_key_of(subnet@), be(supply as nat, 8)),
            ..old(self)@
        }));
    }

    fn fee_state(&self) -> (r: GasState) {
        self.fee_state
    }

    fn set_fee_state(&mut self, s: GasState)
        ensures
            final(self)@ == (StateView {
                chain: ChainView { fee_state: s, ..old(self)@.chain },
                ..old(self)@
            }).stored(FEE_STATE_KEY, be(s.capacity as nat, 8) + be(s.excess as nat, 8)),
    {
        self.fee_state = s;
        let mut buf: Vec<u8> = Vec::new();
        push_u64(&mut buf, s.capacity);
        push_u64(&mut buf, s.excess);
        assert(buf@ =~= be(s.capacity as nat, 8) + be(s.excess as nat, 8));
        self.singletons.put(FEE_STATE_KEY.as_bytes(), buf.as_slice());
        assert(self@ =~= (StateView {
            chain: ChainView { fee_state: s, ..old(self)@.chain },
            ..old(self)@
        }).stored(FEE_STATE_KEY, be(s.capacity as nat, 8) + be(s.excess as nat, 8)));
    }

    fn l1_validator_excess(&self) -> (r: u64) {
        self.l1_validator_excess
    }

    fn set_l1_validator_excess(&mut self, excess: u64)
        ensures
            final(self)@ == (StateView {
                chain: ChainView { l1_validator_excess: excess, ..old(self)@.chain },
                ..old(self)@
            }).stored(L1_VALIDATOR_EXCESS_KEY, be(excess as nat, 8)),
    {
        self.l1_validator_excess = excess;
        let ghost mid = StateView {
            chain: ChainView { l1_validator_excess: excess, ..old(self)@.chain },
            ..old(self)@
        };
        assert(self@ =~= mid);
        self.write_u64_singleton(L1_VALIDATOR_EXCESS_KEY, excess);
    }

    fn accrued_fees(&self) -> (r: u64) {
        self.accrued_fees
    }

    fn set_accrued_fees(&mut self, v: u64)
        ensures
            final(self)@ == (StateView {
                chain: ChainView { accrued_fees: v, ..old(self)@.chain },
                ..old(self)@
            }).stored(ACCRUED_FEES_KEY, be(v as nat, 8)),
    {
        self.accrued_fees = v;
        let ghost mid = StateView {
            chain: ChainView { accrued_fees: v, ..old(self)@.chain },
            ..old(self)@
        };
        assert(self@ =~= mid);
        self.write_u64_singleton(ACCRUED_FEES_KEY, v);
    }

    fn get_utxo(&self, id: Id) -> (r: Result<UtxoBytes>) {
        self.utxos.get(id.as_bytes())
    }

    fn add_utxo(&mut self, id: Id, utxo: UtxoBytes)
        ensures
            final(self)@ == (StateView {
                chain: ChainView {
                    utxos: old(self)@.chain.utxos.insert(id@, utxo@),
                    ..old(self)@.chain
                },
                utxo_index: indexed(old(self)@.utxo_index, utxo_addresses(utxo@), id@),
                ..old(self)@
            }),
    {
        let ghost utxos = self@.chain.utxos;
        let ghost index = self@.utxo_index;
        let ghost addrs = utxo_addresses(utxo@);
        self.index_utxo(id, utxo.as_slice());
        self.utxos.put(id.as_bytes(), utxo.as_slice());
        proof {
            let after = utxos.insert(id@, utxo@);
            assert forall|k: Seq<u8>| #[trigger] after.contains_key(k) implies k.len() == 32
                && listed(indexed(index, addrs, id@), utxo_addresses(after[k]), k) by {
                if k == id@ {
                    lemma_indexed(index, addrs, id@, k);
                } else {
                    assert(utxos.contains_key(k));
                    let owners = utxo_addresses(utxos[k]);
                    assert forall|i: int| 0 <= i < owners.len() implies indexed(
                        index,
                        addrs,
                        id@,
                    ).contains_key(#[trigger] owners[i] + k) by {
                        lemma_indexed(index, addrs, id@, owners[i] + k);
                    }
                }
            }
        }
        assert(self@ =~= (StateView {
            chain: ChainView {
                utxos: old(self)@.chain.utxos.insert(id@, utxo@),
                ..old(self)@.chain
            },
            utxo_index: indexed(old(self)@.utxo_index, utxo_addresses(utxo@), id@),
            ..old(self)@
        }));
    }

    fn delete_utxo(&mut self, id: Id)
        ensures
            final(self)@ == (StateView {
                chain: ChainView {
                    utxos: old(self)@.chain.utxos.remove(id@),
                    ..old(self)@.chain
                },
                utxo_index: if old(self)@.chain.utxos.contains_key(id@) {
                    unindexed(
                        old(self)@.utxo_index,
                        utxo_addresses(old(self)@.chain.utxos[id@]),
                        id@,
                    )
                } else {
                    old(self)@.utxo_index
                },
                ..old(self)@
            }),
    {
        let ghost utxos = self@.chain.utxos;
        let ghost index = self@.utxo_index;
        self.unindex_utxo(id);
        let ghost mid = self@;
        self.utxos.delete(id.as_bytes());
        proof {
            let after = utxos.remove(id@);
            assert forall|k: Seq<u8>| #[trigger] after.contains_key(k) implies k.len() == 32
                && listed(mid.utxo_index, utxo_addresses(after[k]), k) by {
                assert(utxos.contains_key(k));
                let owners = utxo_addresses(utxos[k]);
                if utxos.contains_key(id@) {
                    let addrs = utxo_addresses(utxos[id@]);
                    assert forall|i: int|
                        0 <= i < owners.len() implies mid.utxo_index.contains_key(
                        #[trigger] owners[i] + k,
                    ) by {
                        lemma_unindexed(index, addrs, id@, owners[i], k);
                    }
                }
            }
        }
        assert(self@ =~= (StateView {
            chain: ChainView { utxos: old(self)@.chain.utxos.remove(id@), ..old(self)@.chain },
            utxo_index: mid.utxo_index,
            ..old(self)@
        }));
    }

    fn get_current_validator(&self, subnet: Id, node: NodeId) -> (r: Result<Staker>) {
        match self.current.get_validator(subnet, node) {
            Some(s) => Ok(s),
            None => Err(Error::Database(DbError::NotFound)),
        }
    }

    fn put_current_validator(&mut self, s: Staker) -> (r: Result<()>)
        ensures
            r is Ok ==> final(self)@ == (StateView {
                chain: old(self)@.chain.put_current_validator(s),
                ..old(self)@
            }),
            r is Err ==> final(self)@ == old(self)@,
    {
        if !s.priority.is_current() {
            return Err(Error::WrongTxType);
        }
        let k = MemberKey { subnet_id: s.subnet_id, node_id: s.node_id };
        let ghost infos = self.staking_info@;
        if !self.staking_info.contains(&k) {
            self.staking_info.insert(k, StakingInfo::default());
        }
        self.current.put_validator(s);
        assert(total(self.staking_info@, zero_staking_info()) =~= total(
            infos,
            zero_staking_info(),
        ));
        assert(self@ =~= (StateView {
            chain: old(self)@.chain.put_current_validator(s),
            ..old(self)@
        }));
        Ok(())
    }

    fn delete_current_validator(&mut self, s: &Staker)
        ensures
            final(self)@ == (StateView {
                chain: old(self)@.chain.delete_current_validator(*s),
                ..old(self)@
            }),
    {
        let k = MemberKey { subnet_id: s.subnet_id, node_id: s.node_id };
        let ghost infos = self.staking_info@;
        self.staking_info.remove(&k);
        self.current.delete_validator(s);
        assert(total(self.staking_info@, zero_staking_info()) =~= total(
            infos,
            zero_staking_info(),
        ).insert(member_of(*s), zero_staking_info()));
        assert(self@ =~= (StateView {
            chain: old(self)@.chain.delete_current_validator(*s),
            ..old(self)@
        }));
    }

    fn get_staking_info(&self, subnet: Id, node: NodeId) -> (r: Result<StakingInfo>) {
        match self.get_current_validator(subnet, node) {
            Ok(_) => {},
            Err(e) => {
                return Err(e);
            },
        }
        let k = MemberKey { subnet_id: subnet, node_id: node };
        match self.staking_info.get(&k) {
            Some(i) => Ok(*i),
            None => Ok(StakingInfo::default()),
        }
    }

    fn set_staking_info(&mut self, subnet: Id, node: NodeId, info: StakingInfo) -> (r: Result<()>)
        ensures
            r is Ok ==> final(self)@ == (StateView {
                chain: ChainView {
                    staking_info: old(self)@.chain.staking_info.insert(
                        member_key(subnet@, node@),
                        info,
                    ),
                    ..old(self)@.chain
                },
                ..old(self)@
            }),
            r is Err ==> final(self)@ == old(self)@,
    {
        match self.get_current_validator(subnet, node) {
            Ok(_) => {},
            Err(e) => {
                return Err(e);
            },
        }
        let k = MemberKey { subnet_id: subnet, node_id: node };
        proof {
            lemma_total_insert(
                self.staking_info@,
                zero_staking_info(),
                member_key(subnet@, node@),
                info,
            );
        }
        self.staking_info.insert(k, info);
        assert(self@ =~= (StateView {
            chain: ChainView {
                staking_info: old(self)@.chain.staking_info.insert(
                    member_key(subnet@, node@),
                    info,
                ),
                ..old(self)@.chain
            },
            ..old(self)@
        }));
        Ok(())
    }

    fn put_current_delegator(&mut self, s: Staker)
        ensures
            final(self)@ == (StateView {
                chain: old(self)@.chain.put_current_delegator(s),
                ..old(self)@
            }),
    {
        self.current.put_delegator(s);
        assert(self@ =~= (StateView {
            chain: old(self)@.chain.put_current_delegator(s),
            ..old(self)@
        }));
    }

    fn delete_current_delegator(&mut self, s: &Staker)
        ensures
            final(self)@ == (StateView {
                chain: old(self)@.chain.delete_current_delegator(*s),
                ..old(self)@
            }),
    {
        self.current.delete_delegator(s);
        assert(self@ =~= (StateView {
            chain: old(self)@.chain.delete_current_delegator(*s),
            ..old(self)@
        }));
    }

    fn current_stakers(&self) -> (r: Vec<Staker>) {
        self.current.to_vec()
    }

    fn put_pending_validator(&mut self, s: Staker) -> (r: Result<()>)
        ensures
            r is Ok ==> final(self)@ == (StateView {
                chain: old(self)@.chain.put_pending_validator(s),
                ..old(self)@
            }),
            r is Err ==> final(self)@ == old(self)@,
    {
        if !s.priority.is_pending() {
            return Err(Error::WrongTxType);
        }
        self.pending.put_validator(s);
        assert(self@ =~= (StateView {
            chain: old(self)@.chain.put_pending_validator(s),
            ..old(self)@
        }));
        Ok(())
    }

    fn delete_pending_validator(&mut self, s: &Staker)
        ensures
            final(self)@ == (StateView {
                chain: old(self)@.chain.delete_pending_validator(*s),
                ..old(self)@
            }),
    {
        self.pending.delete_validator(s);
        assert(self@ =~= (StateView {
            chain: old(self)@.chain.delete_pending_validator(*s),
            ..old(self)@
        }));
    }

    fn put_pending_delegator(&mut self, s: Staker)
        ensures
            final(self)@ == (StateView {
                chain: old(self)@.chain.put_pending_delegator(s),
                ..old(self)@
            }),
    {
        self.pending.put_delegator(s);
        assert(self@ =~= (StateView {
            chain: old(self)@.chain.put_pending_delegator(s),
            ..old(self)@
        }));
    }

    fn delete_pending_delegator(&mut self, s: &Staker)
        ensures
            final(self)@ == (StateView {
                chain: old(self)@.chain.delete_pending_delegator(*s),
                ..old(self)@
            }),
    {
        self.pending.delete_delegator(s);
        assert(self@ =~= (StateView {
            chain: old(self)@.chain.delete_pending_delegator(*s),
            ..old(self)@
        }));
    }

    fn pending_stakers(&self) -> (r: Vec<Staker>) {
        self.pending.to_vec()
    }

    fn get_l1_validator(&self, validation_id: Id) -> (r: Result<L1Validator>) {
        match self.l1_validators.get(&validation_id) {
            Some(v) => Ok(v.dup()),
            None => Err(Error::Database(DbError::NotFound)),
        }
    }

    fn put_l1_validator(&mut self, v: L1Validator) -> (r: Result<()>)
        ensures
            final(self)@ == (StateView {
                chain: ChainView {
                    l1_validators: old(self)@.chain.l1_validators.insert(v@.validation_id, v@),
                    ..old(self)@.chain
                },
                ..old(self)@
            }),
    {
        let ghost vv = v@;
        self.l1_validators.insert(v.validation_id, v);
        assert(self@ =~= (StateView {
            chain: ChainView {
                l1_validators: old(self)@.chain.l1_validators.insert(vv.validation_id, vv),
                ..old(self)@.chain
            },
            ..old(self)@
        }));
        Ok(())
    }

    fn weight_of_l1_validators(&self, subnet: Id) -> (r: Result<u64>) {
        match add_weights(&self.l1_validators, &subnet, 0) {
            Some(w) => Ok(w),
            None => Err(Error::Overflow),
        }
    }

    fn active_l1_validators(&self) -> (r: Vec<L1Validator>) {
        sorted_active(&self.l1_validators)
    }

    fn subnets(&self) -> (r: Vec<Id>) {
        copy_ids(&self.subnet_ids.items)
    }

    fn add_subnet(&mut self, subnet: Id)
        ensures
            final(self)@ == (StateView {
                chain: ChainView {
                    subnets: with_new(old(self)@.chain.subnets, subnet@),
                    ..old(self)@.chain
                },
                subnet_rows: if old(self)@.chain.subnets.contains(subnet@) {
                    old(self)@.subnet_rows
                } else {
                    old(self)@.subnet_rows.insert(subnet@, Seq::empty())
                },
                ..old(self)@
            }),
    {
        if !contains_id(&self.subnet_ids.items, &subnet) {
            let none: Vec<u8> = Vec::new();
            self.subnet_rows.put(subnet.as_bytes(), none.as_slice());
            assert(none@ =~= Seq::empty());
            let ghost before = self.subnet_ids@;
            self.subnet_ids.items.push(subnet);
            assert(self.subnet_ids@ =~= before.push(subnet@));
        }
        assert(self@ =~= (StateView {
            chain: ChainView {
                subnets: with_new(old(self)@.chain.subnets, subnet@),
                ..old(self)@.chain
            },
            subnet_rows: self@.subnet_rows,
            ..old(self)@
        }));
    }

    fn get_subnet_owner(&self, subnet: Id) -> (r: Result<Vec<u8>>) {
        self.subnet_owners.get(subnet.as_bytes())
    }

    fn set_subnet_owner(&mut self, subnet: Id, owner: Vec<u8>)
        ensures
            final(self)@ == (StateView {
                chain: ChainView {
                    subnet_owners: old(self)@.chain.subnet_owners.insert(subnet@, owner@),
                    ..old(self)@.chain
                },
                ..old(self)@
            }),
    {
        self.subnet_owners.put(subnet.as_bytes(), owner.as_slice());
        assert(self@ =~= (StateView {
            chain: ChainView {
                subnet_owners: old(self)@.chain.subnet_owners.insert(subnet@, owner@),
                ..old(self)@.chain
            },
            ..old(self)@
        }));
    }

    fn get_subnet_manager(&self, subnet: Id) -> (r: Result<Vec<u8>>) {
        self.subnet_managers.get(subnet.as_bytes())
    }

    fn set_subnet_manager(&mut self, subnet: Id, manager: Vec<u8>)
        ensures
            final(self)@ == (StateView {
                chain: ChainView {
                    subnet_managers: old(self)@.chain.subnet_managers.insert(subnet@, manager@),
                    ..old(self)@.chain
                },
                ..old(self)@
            }),
    {
        self.subnet_managers.put(subnet.as_bytes(), manager.as_slice());
        assert(self@ =~= (StateView {
            chain: ChainView {
                subnet_managers: old(self)@.chain.subnet_managers.insert(subnet@, manager@),
                ..old(self)@.chain
            },
            ..old(self)@
        }));
    }

    fn chains(&self, subnet: Id) -> (r: Vec<Id>) {
        match self.chain_index.get(&subnet) {
            Some(l) => copy_ids(&l.items),
            None => {
                let r: Vec<Id> = Vec::new();
                assert(id_bytes(r@) =~= Seq::empty());
                r
            },
        }
    }

    fn add_chain(&mut self, subnet: Id, chain: Id)
        ensures
            final(self)@ == (StateView {
                chain: old(self)@.chain.add_chain(subnet@, chain@),
                chain_rows: old(self)@.chain_rows.insert(subnet@ + chain@, ()),
                ..old(self)@
            }),
    {
        let ghost before = self.chain_index@;
        let mut list = match self.chain_index.take(&subnet) {
            Some(l) => l,
            None => {
                let l: List<Id> = List { items: Vec::new() };
                assert(l@ =~= Seq::empty());
                l
            },
        };
        let ghost lv = list@;
        assert(lv == total(before, Seq::empty())[subnet@]);
        if !contains_id(&list.items, &chain) {
            list.items.push(chain);
            assert(list@ =~= lv.push(chain@));
        }
        let ghost nv = list@;
        assert(nv == with_new(lv, chain@));
        self.chain_index.insert(subnet, list);
        proof {
            assert(self.chain_index@ =~= before.insert(subnet@, nv));
            lemma_total_insert(before, Seq::empty(), subnet@, nv);
        }
        let mut k = bytes_copy(subnet.as_bytes());
        k.extend_from_slice(chain.as_bytes());
        assert(k@ =~= subnet@ + chain@);
        self.chain_rows.insert(k, ());
        assert(self@ =~= (StateView {
            chain: old(self)@.chain.add_chain(subnet@, chain@),
            chain_rows: old(self)@.chain_rows.insert(subnet@ + chain@, ()),
            ..old(self)@
        }));
    }

    fn get_reward_utxos(&self, tx_id: Id) -> (r: Vec<UtxoBytes>) {
        match self.reward_utxos.get(&tx_id) {
            Some(l) => copy_blobs(&l.items),
            None => {
                let r: Vec<UtxoBytes> = Vec::new();
                assert(blob_bytes(r@) =~= Seq::empty());
                r
            },
        }
    }

    fn add_reward_utxo(&mut self, tx_id: Id, utxo: UtxoBytes)
        ensures
            final(self)@ == (StateView {
                chain: old(self)@.chain.add_reward_utxo(tx_id@, utxo@),
                reward_rows: old(self)@.reward_rows.insert(
                    tx_id@ + be(old(self)@.chain.reward_utxos[tx_id@].len(), 8),
                    utxo@,
                ),
                ..old(self)@
            }),
    {
        let ghost before = self.reward_utxos@;
        let ghost uv = utxo@;
        let mut list = match self.reward_utxos.take(&tx_id) {
            Some(l) => l,
            None => {
                let l: List<Vec<u8>> = List { items: Vec::new() };
                assert(l@ =~= Seq::empty());
                l
            },
        };
        let ghost lv = list@;
        assert(lv == total(before, Seq::empty())[tx_id@]);
        let idx: usize = list.items.len();
        let mut k = bytes_copy(tx_id.as_bytes());
        push_u64(&mut k, idx as u64);
        self.reward_rows.insert(k, bytes_copy(utxo.as_slice()));
        list.items.push(utxo);
        assert(list@ =~= lv.push(uv));
        self.reward_utxos.insert(tx_id, list);
        proof {
            assert(self.reward_utxos@ =~= before.insert(tx_id@, lv.push(uv)));
            lemma_total_insert(before, Seq::empty(), tx_id@, lv.push(uv));
        }
        assert(self@ =~= (StateView {
            chain: old(self)@.chain.add_reward_utxo(tx_id@, uv),
            reward_rows: old(self)@.reward_rows.insert(tx_id@ + be(lv.len(), 8), uv),
            ..old(self)@
        }));
    }

    fn get_tx(&self, tx_id: Id) -> (r: Result<Vec<u8>>) {
        self.txs.get(tx_id.as_bytes())
    }

    fn add_tx(&mut self, tx_id: Id, tx_bytes: Vec<u8>)
        ensures
            final(self)@ == (StateView {
                chain: ChainView {
                    txs: old(self)@.chain.txs.insert(tx_id@, tx_bytes@),
                    ..old(self)@.chain
                },
                ..old(self)@
            }),
    {
        self.txs.put(tx_id.as_bytes(), tx_bytes.as_slice());
        assert(self@ =~= (StateView {
            chain: ChainView {
                txs: old(self)@.chain.txs.insert(tx_id@, tx_bytes@),
                ..old(self)@.chain
            },
            ..old(self)@
        }));
    }
}

} // verus!
