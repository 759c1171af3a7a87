//! Reading and writing the genesis state, and the block that follows from it.
use vstd::prelude::*;

use crate::block::apricot::{apricot_commit_block_fits, apricot_commit_block_ser, common_block_fits, common_block_ser};
use crate::block::block::{apricot_commit, writable, Block, BlockCache};
use crate::block::body::{block_body_fits, block_body_ser, BlockBody};
use crate::codec::{lemma_be_len, CodecError};
use crate::crypto::{digest_id, sha256_digest};
use crate::error::{Error, Result};
use crate::genesis::types::{genesis_fits, genesis_ser, Genesis, GenesisView};
use crate::ids::Id;
use crate::txs::tx::{Tx, TxCache};
use crate::wire::{genesis_codec, ser_all, unversioned, versioned, versioned_bytes_are_canonical, versioned_round_trip, List, Manager, Wire};

verus! {

/// The size that the genesis state and its block may have.
pub const GENESIS_MAX: usize = 0x7fff_ffff;

/// Writes the genesis state.
pub fn marshal(g: &Genesis) -> (r: Result<Vec<u8>>)
    ensures
        r is Ok <==> Genesis::fits(g@) && versioned::<Genesis>(g@).len() <= GENESIS_MAX,
        r matches Ok(b) ==> b@ == versioned::<Genesis>(g@),
        r matches Err(e) ==> e == Error::Codec(
            if Genesis::fits(g@) {
                CodecError::TooBig
            } else {
                CodecError::LengthOverflow
            },
        ),
{
    match genesis_codec().marshal(g) {
        Ok(b) => Ok(b),
        Err(e) => Err(Error::Codec(e)),
    }
}

/// Whether what is derived from each of `txs` follows from what it holds.
pub open spec fn derived(txs: Seq<Tx>) -> bool {
    forall|i: int|
        0 <= i < txs.len() ==> (#[trigger] txs[i]).cache() == TxCache::of(
            versioned::<Tx>(txs[i]@),
        )
}

proof fn lemma_item_len<T: Wire>(vs: Seq<T::V>, i: int)
    requires
        0 <= i < vs.len(),
    ensures
        T::ser(vs[i]).len() <= ser_all::<T>(vs).len(),
    decreases vs.len(),
{
    if i > 0 {
        lemma_item_len::<T>(vs.skip(1), i - 1);
        assert(vs.skip(1)[i - 1] == vs[i]);
    }
}

/// Every transaction of a genesis state that was read can be written alone.
proof fn lemma_txs_fit(v: GenesisView)
    requires
        Genesis::fits(v),
        versioned::<Genesis>(v).len() <= GENESIS_MAX,
    ensures
        forall|i: int|
            0 <= i < v.validators.len() ==> Tx::fits(#[trigger] v.validators[i]) && versioned::<
                Tx,
            >(v.validators[i]).len() <= GENESIS_MAX,
        forall|i: int|
            0 <= i < v.chains.len() ==> Tx::fits(#[trigger] v.chains[i]) && versioned::<Tx>(
                v.chains[i],
            ).len() <= GENESIS_MAX,
{
    reveal(genesis_fits);
    reveal(genesis_ser);
    assert forall|i: int| 0 <= i < v.validators.len() implies Tx::fits(#[trigger] v.validators[i])
        && versioned::<Tx>(v.validators[i]).len() <= GENESIS_MAX by {
        lemma_item_len::<Tx>(v.validators, i);
    }
    assert forall|i: int| 0 <= i < v.chains.len() implies Tx::fits(#[trigger] v.chains[i])
        && versioned::<Tx>(v.chains[i]).len() <= GENESIS_MAX by {
        lemma_item_len::<Tx>(v.chains, i);
    }
}

/// Derives the bytes and the id of each of `txs`.
fn initialize_all(txs: Vec<Tx>, c: &Manager) -> (r: Vec<Tx>)
    requires
        c.max_size == GENESIS_MAX,
        forall|i: int|
            0 <= i < txs@.len() ==> Tx::fits((#[trigger] txs@[i])@) && versioned::<Tx>(
                txs@[i]@,
            ).len() <= GENESIS_MAX,
    ensures
        r@.map_values(|t: Tx| t@) == txs@.map_values(|t: Tx| t@),
        derived(r@),
{
    let mut out = txs;
    let ghost views = txs@.map_values(|t: Tx| t@);
    let n: usize = out.len();
    let mut i: usize = 0;
    while i < n
        invariant
            i <= n,
            n == out@.len(),
            n == views.len(),
            c.max_size == GENESIS_MAX,
            forall|j: int| 0 <= j < n ==> (#[trigger] out@[j])@ == views[j],
            forall|j: int|
                0 <= j < n ==> Tx::fits(#[trigger] views[j]) && versioned::<Tx>(views[j]).len()
                    <= GENESIS_MAX,
            forall|j: int|
                0 <= j < i ==> (#[trigger] out@[j]).cache() == TxCache::of(
                    versioned::<Tx>(out@[j]@),
                ),
        decreases n - i,
    {
        assert(out@[i as int]@ == views[i as int]);
        let _ = out[i].initialize(c);
        i += 1;
    }
    assert(out@.map_values(|t: Tx| t@) =~= views);
    out
}

/// Reads the genesis state, and derives the ids of its transactions.
pub fn parse(bytes: &[u8]) -> (r: Result<Genesis>)
    ensures
        match unversioned::<Genesis>(GENESIS_MAX as nat, bytes@) {
            Ok(v) => {
                &&& r is Ok
                &&& r->Ok_0@ == v
                &&& derived(r->Ok_0.validators.items@)
                &&& derived(r->Ok_0.chains.items@)
            },
            Err(e) => r == Err::<Genesis, Error>(Error::Codec(e)),
        },
{
    let c = genesis_codec();
    match c.unmarshal::<Genesis>(bytes) {
        Ok(g) => {
            proof {
                versioned_bytes_are_canonical::<Genesis>(GENESIS_MAX as nat, bytes@);
                lemma_txs_fit(g@);
                assert forall|i: int| 0 <= i < g.validators.items@.len() implies Tx::fits(
                    (#[trigger] g.validators.items@[i])@,
                ) && versioned::<Tx>(g.validators.items@[i]@).len() <= GENESIS_MAX by {
                    assert(g@.validators[i] == g.validators.items@[i]@);
                }
                assert forall|i: int| 0 <= i < g.chains.items@.len() implies Tx::fits(
                    (#[trigger] g.chains.items@[i])@,
                ) && versioned::<Tx>(g.chains.items@[i]@).len() <= GENESIS_MAX by {
                    assert(g@.chains[i] == g.chains.items@[i]@);
                }
            }
            let validators = initialize_all(g.validators.items, &c);
            let chains = initialize_all(g.chains.items, &c);
            Ok(
                Genesis {
                    utxos: g.utxos,
                    validators: List { items: validators },
                    chains: List { items: chains },
                    timestamp: g.timestamp,
                    initial_supply: g.initial_supply,
                    message: g.message,
                },
            )
        },
        Err(e) => Err(Error::Codec(e)),
    }
}

/// The id of the genesis state: the digest of its bytes.
pub fn genesis_id(genesis_bytes: &[u8]) -> (r: Id)
    ensures
        r@ == sha256_digest(genesis_bytes@),
{
    digest_id(genesis_bytes)
}

/// The bytes of the genesis block.
pub open spec fn genesis_block_bytes(genesis_bytes: Seq<u8>) -> Seq<u8> {
    versioned::<BlockBody>(apricot_commit(sha256_digest(genesis_bytes), 0))
}

/// The genesis block: it commits the genesis state, whose id it has in place of
/// a parent, at the height 0.
pub fn genesis_block(genesis_bytes: &[u8]) -> (r: Result<Block>)
    ensures
        r is Ok,
        r->Ok_0@ == apricot_commit(sha256_digest(genesis_bytes@), 0),
        r->Ok_0.cache() == BlockCache::of(genesis_block_bytes(genesis_bytes@)),
{
    let parent_id = genesis_id(genesis_bytes);
    let c = genesis_codec();
    proof {
        let v = apricot_commit(parent_id@, 0);
        reveal(block_body_fits);
        reveal(block_body_ser);
        reveal(apricot_commit_block_fits);
        reveal(apricot_commit_block_ser);
        reveal(common_block_fits);
        reveal(common_block_ser);
        lemma_be_len(2, 4);
        lemma_be_len(0, 8);
        lemma_be_len(0, 2);
        assert(writable(v, GENESIS_MAX as nat));
    }
    match Block::new_apricot_commit(&c, parent_id, 0) {
        Ok(b) => Ok(b),
        Err(e) => Err(Error::Codec(e)),
    }
}

/// A genesis state that was written is read back.
pub proof fn genesis_round_trip(v: GenesisView)
    requires
        Genesis::fits(v),
        versioned::<Genesis>(v).len() <= GENESIS_MAX,
    ensures
        unversioned::<Genesis>(GENESIS_MAX as nat, versioned::<Genesis>(v)) == Ok::<
            GenesisView,
            CodecError,
        >(v),
{
    versioned_round_trip::<Genesis>(GENESIS_MAX as nat, v);
}

} // verus!
