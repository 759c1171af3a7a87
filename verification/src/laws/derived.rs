//! What is derived: ids are digests of bytes, and bytes are what is written.
use vstd::prelude::*;

use crate::block::block::Block;
use crate::block::body::BlockBody;
use crate::block::codec::{Codec, GenesisCodec};
use crate::block::parse::parse as parse_block;
use crate::codec::CodecError;
use crate::crypto::sha256_digest;
use crate::error::{Error, Result};
use crate::fx::owner_id;
use crate::genesis::codec::{genesis_block, genesis_id, marshal, parse as parse_genesis};
use crate::genesis::types::Genesis;
use crate::ids::{empty_id, Id};
use crate::txs::components::{Owner, OutputOwners};
use crate::txs::tx::Tx;
use crate::txs::unsigned::UnsignedTx;
use crate::wire::{versioned_bytes_are_canonical, versioned_round_trip, Manager, Wire};

verus! {

/// A new transaction asks for what it was given, is not signed, and has neither
/// an id nor bytes.
pub proof fn a_new_transaction_is_bare(u: UnsignedTx, tx: Tx, id: Id, bytes: &[u8])
    requires
        call_ensures(Tx::new, (u,), tx),
        call_ensures(Tx::id, (&tx,), id),
        call_ensures(Tx::bytes, (&tx,), bytes),
    ensures
        tx.unsigned == u,
        tx@.creds.len() == 0,
        id@ == empty_id(),
        bytes@.len() == 0,
{
}

/// Deriving gives a transaction the bytes that it is written as, and their
/// digest as its id. One that is read from these bytes is the same, id and all.
/// What it asks for and what signs it stay as they were.
pub proof fn a_transaction_is_known_by_its_bytes(
    tx: &mut Tx,
    codec: Manager,
    done: core::result::Result<(), CodecError>,
    after: &Tx,
    id: Id,
    bytes: &[u8],
    read: core::result::Result<Tx, CodecError>,
)
    requires
        call_ensures(Tx::initialize, (tx, &codec), done),
        *after == *final(tx),
        call_ensures(Tx::id, (after,), id),
        call_ensures(Tx::bytes, (after,), bytes),
        call_ensures(Tx::parse, (&codec, bytes), read),
    ensures
        after@ == old(tx)@,
        done is Ok ==> bytes@ == seq![0u8, 0u8] + Tx::ser(old(tx)@),
        done is Ok ==> id@ == sha256_digest(bytes@),
        done is Ok ==> read is Ok && read->Ok_0@ == old(tx)@ && read->Ok_0.tx_id@ == id@
            && read->Ok_0.bytes@ == bytes@,
        done is Ok <==> Tx::fits(old(tx)@) && 2 + Tx::ser(old(tx)@).len() <= codec.max_size,
        done is Err ==> id@ == old(tx).tx_id@ && bytes@ == old(tx).bytes@,
{
    crate::codec::lemma_be_len(0, 2);
    reveal_with_fuel(crate::codec::be, 3);
    assert(crate::codec::be(0, 2) =~= seq![0u8, 0u8]);
    if done is Ok {
        versioned_round_trip::<Tx>(codec.max_size as nat, old(tx)@);
    }
}

/// A transaction that is read keeps the bytes that it was read from, which are
/// those that it is written as, and their digest is its id.
pub proof fn a_transaction_that_is_read_keeps_its_bytes(
    codec: Manager,
    bytes: &[u8],
    read: core::result::Result<Tx, CodecError>,
)
    requires
        call_ensures(Tx::parse, (&codec, bytes), read),
        read is Ok,
    ensures
        read->Ok_0.bytes@ == bytes@,
        read->Ok_0.tx_id@ == sha256_digest(bytes@),
        bytes@ == seq![0u8, 0u8] + Tx::ser(read->Ok_0@),
        bytes@.len() <= codec.max_size,
{
    crate::codec::lemma_be_len(0, 2);
    reveal_with_fuel(crate::codec::be, 3);
    assert(crate::codec::be(0, 2) =~= seq![0u8, 0u8]);
    versioned_bytes_are_canonical::<Tx>(codec.max_size as nat, bytes@);
}

/// A new block has its body, and neither an id nor bytes.
pub proof fn a_new_block_is_bare(body: BlockBody, b: Block, id: Id, bytes: &[u8])
    requires
        call_ensures(Block::new, (body,), b),
        call_ensures(Block::id, (&b,), id),
        call_ensures(Block::bytes, (&b,), bytes),
    ensures
        b.body == body,
        id@ == empty_id(),
        bytes@.len() == 0,
{
}

/// Deriving gives a block the bytes that its body is written as, and their
/// digest as its id. One that is read from these bytes is the same, id and all.
pub proof fn a_block_is_known_by_its_bytes(
    b: &mut Block,
    codec: Manager,
    done: core::result::Result<(), CodecError>,
    after: &Block,
    id: Id,
    bytes: &[u8],
    read: core::result::Result<Block, CodecError>,
)
    requires
        call_ensures(Block::initialize, (b, &codec), done),
        *after == *final(b),
        call_ensures(Block::id, (after,), id),
        call_ensures(Block::bytes, (after,), bytes),
        call_ensures(parse_block, (&codec, bytes), read),
    ensures
        after.body == old(b).body,
        done is Ok ==> bytes@ == seq![0u8, 0u8] + BlockBody::ser(old(b).body@),
        done is Ok ==> id@ == sha256_digest(bytes@),
        done is Ok ==> read is Ok && read->Ok_0.body@ == old(b).body@ && read->Ok_0.block_id@
            == id@ && read->Ok_0.raw@ == bytes@,
        done is Ok <==> BlockBody::fits(old(b).body@) && 2 + BlockBody::ser(old(b).body@).len()
            <= codec.max_size,
        done is Err ==> id@ == old(b).block_id@ && bytes@ == old(b).raw@,
{
    crate::codec::lemma_be_len(0, 2);
    reveal_with_fuel(crate::codec::be, 3);
    assert(crate::codec::be(0, 2) =~= seq![0u8, 0u8]);
    if done is Ok {
        versioned_round_trip::<BlockBody>(codec.max_size as nat, old(b).body@);
    }
}

/// A block that is read keeps the bytes that it was read from, which are those
/// that it is written as, and their digest is its id. The codec of new blocks
/// reads less than that of the first one.
pub proof fn a_block_that_is_read_keeps_its_bytes(
    codec: Manager,
    bytes: &[u8],
    read: core::result::Result<Block, CodecError>,
    small: Manager,
    large: Manager,
)
    requires
        call_ensures(Block::parse, (&codec, bytes), read),
        call_ensures(Codec, (), small),
        call_ensures(GenesisCodec, (), large),
    ensures
        read matches Ok(b) ==> b.raw@ == bytes@ && b.block_id@ == sha256_digest(bytes@) && bytes@
            == seq![0u8, 0u8] + BlockBody::ser(b.body@) && bytes@.len() <= codec.max_size,
        small.max_size < large.max_size,
{
    crate::codec::lemma_be_len(0, 2);
    reveal_with_fuel(crate::codec::be, 3);
    assert(crate::codec::be(0, 2) =~= seq![0u8, 0u8]);
    versioned_bytes_are_canonical::<BlockBody>(codec.max_size as nat, bytes@);
}

/// An option says what it chooses, whose child it is, how high it stands and,
/// where it is timed, when it is; and it is known by its bytes.
pub proof fn options_say_what_they_choose(
    codec: Manager,
    time: u64,
    parent: Id,
    height: u64,
    commit: core::result::Result<Block, CodecError>,
    abort: core::result::Result<Block, CodecError>,
    timed_commit: core::result::Result<Block, CodecError>,
    timed_abort: core::result::Result<Block, CodecError>,
)
    requires
        call_ensures(Block::new_apricot_commit, (&codec, parent, height), commit),
        call_ensures(Block::new_apricot_abort, (&codec, parent, height), abort),
        call_ensures(Block::new_banff_commit, (&codec, time, parent, height), timed_commit),
        call_ensures(Block::new_banff_abort, (&codec, time, parent, height), timed_abort),
        codec.max_size >= 64,
    ensures
        commit is Ok && abort is Ok && timed_commit is Ok && timed_abort is Ok,
        commit->Ok_0.body matches BlockBody::ApricotCommit(x) && x.common.parent_id@ == parent@
            && x.common.height == height,
        abort->Ok_0.body matches BlockBody::ApricotAbort(x) && x.common.parent_id@ == parent@
            && x.common.height == height,
        timed_commit->Ok_0.body matches BlockBody::BanffCommit(x) && x.apricot.common.parent_id@
            == parent@ && x.apricot.common.height == height && x.time == time,
        timed_abort->Ok_0.body matches BlockBody::BanffAbort(x) && x.apricot.common.parent_id@
            == parent@ && x.apricot.common.height == height && x.time == time,
        commit->Ok_0.block_id@ == sha256_digest(commit->Ok_0.raw@),
        abort->Ok_0.block_id@ == sha256_digest(abort->Ok_0.raw@),
        timed_commit->Ok_0.block_id@ == sha256_digest(timed_commit->Ok_0.raw@),
        timed_abort->Ok_0.block_id@ == sha256_digest(timed_abort->Ok_0.raw@),
{
    reveal(crate::block::body::block_body_fits);
    reveal(crate::block::body::block_body_ser);
    reveal(crate::block::apricot::common_block_fits);
    reveal(crate::block::apricot::common_block_ser);
    reveal(crate::block::apricot::apricot_commit_block_fits);
    reveal(crate::block::apricot::apricot_commit_block_ser);
    reveal(crate::block::apricot::apricot_abort_block_fits);
    reveal(crate::block::apricot::apricot_abort_block_ser);
    reveal(crate::block::banff::banff_commit_block_fits);
    reveal(crate::block::banff::banff_commit_block_ser);
    reveal(crate::block::banff::banff_abort_block_fits);
    reveal(crate::block::banff::banff_abort_block_ser);
    crate::codec::lemma_be_len(0, 2);
    crate::codec::lemma_be_len(1, 4);
    crate::codec::lemma_be_len(2, 4);
    crate::codec::lemma_be_len(30, 4);
    crate::codec::lemma_be_len(31, 4);
    crate::codec::lemma_be_len(time as nat, 8);
    crate::codec::lemma_be_len(height as nat, 8);
}

/// The first block commits what the genesis bytes hold: it is untimed, at the
/// height 0, and has the digest of those bytes for a parent.
pub proof fn the_first_block_commits_genesis(bytes: &[u8], id: Id, first: Result<Block>)
    requires
        call_ensures(genesis_id, (bytes,), id),
        call_ensures(genesis_block, (bytes,), first),
    ensures
        id@ == sha256_digest(bytes@),
        first is Ok,
        first->Ok_0.body matches BlockBody::ApricotCommit(x) && x.common.parent_id@ == id@
            && x.common.height == 0,
        first->Ok_0.block_id@ == sha256_digest(first->Ok_0.raw@),
{
}

/// What is read of genesis is what was written of it, and each of its
/// transactions is known by its bytes.
pub proof fn genesis_is_kept(
    g: Genesis,
    written: Result<Vec<u8>>,
    bytes: &[u8],
    read: Result<Genesis>,
)
    requires
        call_ensures(marshal, (&g,), written),
        written is Ok,
        bytes@ == written->Ok_0@,
        call_ensures(parse_genesis, (bytes,), read),
    ensures
        read is Ok && read->Ok_0@ == g@,
        read->Ok_0.timestamp == g.timestamp,
        read->Ok_0.initial_supply == g.initial_supply,
        forall|i: int|
            0 <= i < read->Ok_0.validators.items@.len() ==> {
                let tx = #[trigger] read->Ok_0.validators.items@[i];
                tx.tx_id@ == sha256_digest(tx.bytes@) && tx.bytes@ == seq![0u8, 0u8] + Tx::ser(tx@)
            },
        forall|i: int|
            0 <= i < read->Ok_0.chains.items@.len() ==> {
                let tx = #[trigger] read->Ok_0.chains.items@[i];
                tx.tx_id@ == sha256_digest(tx.bytes@) && tx.bytes@ == seq![0u8, 0u8] + Tx::ser(tx@)
            },
{
    crate::codec::lemma_be_len(0, 2);
    reveal_with_fuel(crate::codec::be, 3);
    assert(crate::codec::be(0, 2) =~= seq![0u8, 0u8]);
    versioned_round_trip::<Genesis>(crate::genesis::codec::GENESIS_MAX as nat, g@);
}

/// The id of owners is the digest of what is written of them.
pub proof fn owners_have_ids(o: OutputOwners, wrapped: Owner, id: Result<Id>)
    requires
        wrapped == Owner::Secp256k1(o),
        call_ensures(owner_id, (&o,), id),
    ensures
        id matches Ok(i) ==> i@ == sha256_digest(seq![0u8, 0u8] + Owner::ser(wrapped@)),
        Owner::fits(wrapped@) && Owner::ser(wrapped@).len() <= 262_142 ==> id is Ok,
        !Owner::fits(wrapped@) ==> id == Err::<Id, Error>(
            Error::Codec(CodecError::LengthOverflow),
        ),
{
    crate::codec::lemma_be_len(0, 2);
    reveal_with_fuel(crate::codec::be, 3);
    assert(crate::codec::be(0, 2) =~= seq![0u8, 0u8]);
}

} // verus!
