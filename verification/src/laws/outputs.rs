//! The stored state: which outputs an address owns, and which blocks there are.
use vstd::prelude::*;

use crate::codec::{be, lemma_be_value_be, lemma_pow256};
use crate::crypto::sha256_digest;
use crate::error::{DbError, Error, Result};
use crate::ids::{Id, ShortId};
use crate::order::lex_lt;
use crate::state::chain::{id_bytes, Chain};
use crate::state::state::{indexed, unindexed, utxo_addresses, AddressIndex, State};
use crate::txs::components::OutputView;
use crate::utxo::{prefixed_id, Utxo, UtxoView};
use crate::wire::{unversioned, versioned, versioned_round_trip, Wire};

verus! {

/// The addresses that own an output, locked or not.
pub open spec fn owners(v: OutputView) -> Seq<Seq<u8>> {
    match v {
        OutputView::Transfer(x) => x.owners.addrs,
        OutputView::StakeableLock(_, x) => match *x {
            OutputView::Transfer(y) => y.owners.addrs,
            OutputView::StakeableLock(_, _) => Seq::empty(),
        },
    }
}

/// The owners of a stored output are those that it names, whether it is locked
/// or not. Bytes that hold no output have no owner.
pub proof fn stored_outputs_have_their_owners(u: UtxoView, bytes: Seq<u8>)
    requires
        Utxo::fits(u),
        versioned::<Utxo>(u).len() <= 0x7fff_ffff,
    ensures
        u.out is Transfer || (u.out matches OutputView::StakeableLock(_, x) && *x is Transfer)
            ==> utxo_addresses(versioned::<Utxo>(u)) == owners(u.out),
        unversioned::<Utxo>(0x7fff_ffff, bytes) is Err ==> utxo_addresses(bytes).len() == 0,
{
    versioned_round_trip::<Utxo>(0x7fff_ffff, u);
    reveal_with_fuel(crate::utxo::addresses_of, 3);
}

/// Once an output was put under its owners, each of them lists it. What is
/// listed of other outputs, and under others, is as before.
pub proof fn an_indexed_output_is_listed(
    index: AddressIndex,
    addrs: Seq<Seq<u8>>,
    id: Seq<u8>,
    addr: Seq<u8>,
    other: Seq<u8>,
)
    requires
        id.len() == 32,
        other.len() == 32,
    ensures
        addrs.contains(addr) ==> indexed(index, addrs, id).contains_key(addr + id),
        other != id || !addrs.contains(addr) ==> indexed(index, addrs, id).contains_key(
            addr + other,
        ) == index.contains_key(addr + other),
    decreases addrs.len(),
{
    if addrs.len() > 0 {
        let rest = addrs.drop_last();
        an_indexed_output_is_listed(index, rest, id, addr, other);
        let a = addrs.last() + id;
        let b = addr + other;
        if a == b {
            assert(a.skip(a.len() - 32) =~= id);
            assert(b.skip(b.len() - 32) =~= other);
            assert(a.take(a.len() - 32) =~= addrs.last());
            assert(b.take(b.len() - 32) =~= addr);
        }
        if addrs.contains(addr) && addr != addrs.last() {
            let x = addrs.index_of(addr);
            assert(rest[x] == addr);
        }
        if rest.contains(addr) {
            assert(addrs[rest.index_of(addr)] == addr);
        }
        assert(addrs[addrs.len() - 1] == addrs.last());
    }
}

/// Once an output was taken from under its owners, none of them lists it. What
/// is listed of other outputs, and under others, is as before.
pub proof fn an_unindexed_output_is_not_listed(
    index: AddressIndex,
    addrs: Seq<Seq<u8>>,
    id: Seq<u8>,
    addr: Seq<u8>,
    other: Seq<u8>,
)
    requires
        id.len() == 32,
        other.len() == 32,
    ensures
        addrs.contains(addr) ==> !unindexed(index, addrs, id).contains_key(addr + id),
        other != id || !addrs.contains(addr) ==> unindexed(index, addrs, id).contains_key(
            addr + other,
        ) == index.contains_key(addr + other),
    decreases addrs.len(),
{
    if addrs.len() > 0 {
        let rest = addrs.drop_last();
        an_unindexed_output_is_not_listed(index, rest, id, addr, other);
        let a = addrs.last() + id;
        let b = addr + other;
        if a == b {
            assert(a.skip(a.len() - 32) =~= id);
            assert(b.skip(b.len() - 32) =~= other);
            assert(a.take(a.len() - 32) =~= addrs.last());
            assert(b.take(b.len() - 32) =~= addr);
        }
        if addrs.contains(addr) && addr != addrs.last() {
            let x = addrs.index_of(addr);
            assert(rest[x] == addr);
        }
        if rest.contains(addr) {
            assert(addrs[rest.index_of(addr)] == addr);
        }
        assert(addrs[addrs.len() - 1] == addrs.last());
    }
}

/// A page of an address lists, in increasing order, outputs that the address
/// owns behind the one given, no more than asked for, and leaves none out but
/// behind a full page.
pub proof fn a_page_lists_what_an_address_owns(
    s: &State,
    addr: &ShortId,
    previous: Id,
    limit: usize,
    r: Vec<Id>,
    i: int,
    id: Seq<u8>,
)
    requires
        s.wf(),
        call_ensures(State::utxo_ids, (s, addr, previous, limit), r),
        id.len() == 32,
    ensures
        r@.len() <= limit,
        0 <= i < r@.len() ==> s@.utxo_index.contains_key(addr@ + r@[i]@) && lex_lt(
            previous@,
            r@[i]@,
        ),
        0 < i < r@.len() ==> lex_lt(r@[i - 1]@, r@[i]@),
        s@.utxo_index.contains_key(addr@ + id) && lex_lt(previous@, id) && r@.len() < limit
            ==> exists|j: int| 0 <= j < r@.len() && (#[trigger] r@[j])@ == id,
        s@.utxo_index.contains_key(addr@ + id) && lex_lt(previous@, id) && r@.len() == limit && limit
            > 0 && !lex_lt(r@.last()@, id) ==> exists|j: int|
            0 <= j < r@.len() && (#[trigger] r@[j])@ == id,
{
    let ids = id_bytes(r@);
    if 0 <= i < r@.len() {
        assert(ids[i] == r@[i]@);
        if i > 0 {
            assert(lex_lt(ids[i - 1], ids[i]));
        }
    }
    if ids.contains(id) {
        let j = ids.index_of(id);
        assert(r@[j]@ == id);
    }
    if r@.len() > 0 {
        assert(ids.last() == r@.last()@);
    }
}

/// A block that was stored is found by its id and by its height; others are
/// found as before.
pub proof fn a_stored_block_is_found(
    s: &mut State,
    after: &State,
    id: Id,
    height: u64,
    bytes: &[u8],
    other: Id,
    at: u64,
    block: Result<Vec<u8>>,
    found: Option<Id>,
)
    requires
        old(s).wf(),
        *after == *final(s),
        after.wf(),
        call_ensures(State::add_block, (s, id, height, bytes), ()),
        call_ensures(State::get_block, (after, other), block),
        call_ensures(State::get_block_id_at_height, (after, at), found),
    ensures
        other@ == id@ ==> block is Ok && block->Ok_0@ == bytes@,
        other@ != id@ ==> (block is Ok <==> old(s)@.blocks.contains_key(other@)) && (block is Ok
            ==> block->Ok_0@ == old(s)@.blocks[other@]),
        block matches Err(e) ==> e == Error::Database(DbError::NotFound),
        at == height ==> found is Some && found->0@ == id@,
        at != height ==> (found is Some <==> old(s)@.block_index.contains_key(be(at as nat, 8))) && (
        found is Some ==> found->0@ == old(s)@.block_index[be(at as nat, 8)]),
        after@.chain == old(s)@.chain,
        after@.last_accepted == old(s)@.last_accepted,
        after@.height == old(s)@.height,
{
    lemma_pow256();
    lemma_be_value_be(at as nat, 8);
    lemma_be_value_be(height as nat, 8);
}

/// The last accepted block and its height are read as set, and what blocks
/// change stays as it was.
pub proof fn the_last_accepted_block_is_read_as_set(
    s: &mut State,
    t: &mut State,
    a: &State,
    b: &State,
    id: Id,
    height: u64,
    last: Id,
    h: u64,
)
    requires
        old(s).wf(),
        old(t).wf(),
        *a == *final(s),
        *b == *final(t),
        call_ensures(State::set_last_accepted, (s, id), ()),
        call_ensures(State::last_accepted, (a,), last),
        call_ensures(State::set_height, (t, height), ()),
        call_ensures(State::height, (b,), h),
    ensures
        last@ == id@,
        a@.chain == old(s)@.chain && a@.blocks == old(s)@.blocks && a@.height == old(s)@.height,
        h == height,
        b@.chain == old(t)@.chain && b@.blocks == old(t)@.blocks && b@.last_accepted
            == old(t)@.last_accepted,
{
}

/// A copy of a state reads as the state does.
pub proof fn a_snapshot_reads_the_same(s: &State, r: State)
    requires
        s.wf(),
        call_ensures(State::snapshot, (s,), r),
    ensures
        r.wf(),
        r@.chain == s@.chain,
        r@.blocks == s@.blocks,
        r@.block_index == s@.block_index,
        r@.utxo_index == s@.utxo_index,
        r@.last_accepted == s@.last_accepted,
        r@.height == s@.height,
        r@.weight_diffs == s@.weight_diffs,
        r@.key_diffs == s@.key_diffs,
{
}

/// A new state holds nothing.
pub proof fn a_new_state_is_empty(s: State, k: Seq<u8>)
    requires
        call_ensures(State::new, (), s),
        k.len() == 32,
    ensures
        !s@.chain.utxos.contains_key(k),
        !s@.chain.txs.contains_key(k),
        !s@.blocks.contains_key(k),
        s@.chain.subnets.len() == 0,
        s@.chain.chains[k].len() == 0,
        s@.chain.supply[k] == 0,
        s@.chain.timestamp == 0,
        s@.height == 0,
        s@.last_accepted == Seq::new(32, |i: int| 0u8),
{
}

/// The id of an output is the digest of its number and its transaction.
pub proof fn outputs_are_known_by_their_digest(id: Id, n: u64, r: Id, u: &Utxo, own: Id)
    requires
        call_ensures(prefixed_id, (id, n), r),
        call_ensures(Utxo::input_id, (u,), own),
    ensures
        r@ == sha256_digest(be(n as nat, 8) + id@),
        own@ == sha256_digest(be(u.output_index as nat, 8) + u.tx_id@),
{
}

} // verus!
