//! The pool: what transactions spend, and which of them it takes.
use vstd::prelude::*;

use crate::crypto::sha256_digest;
use crate::codec::be;
use crate::ids::Id;
use crate::network::{judged_all, settled_all, DropReason, HandleOutcome, SyntacticVerifier, TxGossipHandler, TxVerifier};
use crate::txs::components::TransferableInputView;
use crate::txs::mempool::{input_ids, inputs_of, pool_size, pooled, spent, Mempool, MempoolError};
use crate::txs::tx::Tx;
use crate::txs::unsigned::{UnsignedTx, UnsignedTxView};

verus! {

/// The inputs of a transaction on this chain: of every kind but those that only
/// propose.
pub open spec fn own_inputs(v: UnsignedTxView) -> Seq<TransferableInputView> {
    match v {
        UnsignedTxView::AddValidator(t) => t.base.ins,
        UnsignedTxView::AddSubnetValidator(t) => t.base.ins,
        UnsignedTxView::AddDelegator(t) => t.base.ins,
        UnsignedTxView::CreateChain(t) => t.base.ins,
        UnsignedTxView::CreateSubnet(t) => t.base.ins,
        UnsignedTxView::Import(t) => t.base.ins,
        UnsignedTxView::Export(t) => t.base.ins,
        UnsignedTxView::RemoveSubnetValidator(t) => t.base.ins,
        UnsignedTxView::TransformSubnet(t) => t.base.ins,
        UnsignedTxView::AddPermissionlessValidator(t) => t.base.ins,
        UnsignedTxView::AddPermissionlessDelegator(t) => t.base.ins,
        UnsignedTxView::TransferSubnetOwnership(t) => t.base.ins,
        UnsignedTxView::Base(t) => t.ins,
        UnsignedTxView::ConvertSubnetToL1(t) => t.base.ins,
        UnsignedTxView::RegisterL1Validator(t) => t.base.ins,
        UnsignedTxView::SetL1ValidatorWeight(t) => t.base.ins,
        UnsignedTxView::IncreaseL1ValidatorBalance(t) => t.base.ins,
        UnsignedTxView::DisableL1Validator(t) => t.base.ins,
        UnsignedTxView::AdvanceTime(_) => Seq::empty(),
        UnsignedTxView::RewardValidator(_) => Seq::empty(),
    }
}

/// The inputs of a transaction on another chain, which only an import has.
pub open spec fn foreign_inputs(v: UnsignedTxView) -> Seq<TransferableInputView> {
    match v {
        UnsignedTxView::Import(t) => t.imported_inputs,
        _ => Seq::empty(),
    }
}

/// Whether a transaction spends the output `index` of the transaction `tx_id`.
pub open spec fn spends(v: UnsignedTxView, tx_id: Seq<u8>, index: u32) -> bool {
    ||| exists|i: int|
        0 <= i < own_inputs(v).len() && (#[trigger] own_inputs(v)[i]).tx_id == tx_id
            && own_inputs(v)[i].output_index == index
    ||| exists|i: int|
        0 <= i < foreign_inputs(v).len() && (#[trigger] foreign_inputs(v)[i]).tx_id == tx_id
            && foreign_inputs(v)[i].output_index == index
}

/// The ids of what a transaction spends: those of its inputs on this chain, and
/// behind them those on another chain, each made of the output's number and its
/// transaction.
pub proof fn every_input_is_counted(tx: &UnsignedTx, r: Vec<Id>, i: int)
    requires
        call_ensures(input_ids, (tx,), r),
    ensures
        r@.len() == own_inputs(tx@).len() + foreign_inputs(tx@).len(),
        0 <= i < own_inputs(tx@).len() ==> r@[i]@ == sha256_digest(
            be(own_inputs(tx@)[i].output_index as nat, 8) + own_inputs(tx@)[i].tx_id,
        ),
        0 <= i < foreign_inputs(tx@).len() ==> r@[own_inputs(tx@).len() + i]@ == sha256_digest(
            be(foreign_inputs(tx@)[i].output_index as nat, 8) + foreign_inputs(tx@)[i].tx_id,
        ),
{
    let ids = crate::state::chain::id_bytes(r@);
    assert(ids.len() == r@.len());
    if 0 <= i < own_inputs(tx@).len() {
        assert(ids[i] == r@[i]@);
    }
    if 0 <= i < foreign_inputs(tx@).len() {
        assert(ids[own_inputs(tx@).len() + i] == r@[own_inputs(tx@).len() + i]@);
    }
}

proof fn lemma_spends(v: UnsignedTxView, tx_id: Seq<u8>, index: u32)
    requires
        spends(v, tx_id, index),
    ensures
        inputs_of(v).contains(sha256_digest(be(index as nat, 8) + tx_id)),
{
    let k = sha256_digest(be(index as nat, 8) + tx_id);
    if exists|i: int|
        0 <= i < own_inputs(v).len() && (#[trigger] own_inputs(v)[i]).tx_id == tx_id
            && own_inputs(v)[i].output_index == index {
        let i = choose|i: int|
            0 <= i < own_inputs(v).len() && (#[trigger] own_inputs(v)[i]).tx_id == tx_id
                && own_inputs(v)[i].output_index == index;
        assert(inputs_of(v)[i] == k);
    } else {
        let i = choose|i: int|
            0 <= i < foreign_inputs(v).len() && (#[trigger] foreign_inputs(v)[i]).tx_id == tx_id
                && foreign_inputs(v)[i].output_index == index;
        assert(inputs_of(v)[own_inputs(v).len() + i] == k);
    }
}

/// A transaction that the pool takes stands behind the others, which stay; one
/// that it refuses changes nothing. It takes none twice, none of more than 64
/// KiB, no more than 64 MiB in all, and none that spends what another one
/// spends already.
pub proof fn the_pool_takes_what_fits(
    pool: &mut Mempool,
    tx: Tx,
    r: core::result::Result<(), MempoolError>,
    i: int,
    tx_id: Seq<u8>,
    index: u32,
)
    requires
        old(pool).wf(),
        call_ensures(Mempool::add, (pool, tx), r),
    ensures
        r is Ok ==> final(pool)@ == old(pool)@.push(tx),
        r is Err ==> final(pool)@ == old(pool)@,
        r is Ok ==> tx.cache().bytes.len() <= 65_536,
        r is Ok ==> pool_size(final(pool)@) <= 67_108_864,
        0 <= i < old(pool)@.len() && old(pool)@[i].cache().id == tx.cache().id ==> r == Err::<
            (),
            MempoolError,
        >(MempoolError::Duplicate),
        r == Err::<(), MempoolError>(MempoolError::Duplicate) ==> exists|j: int|
            0 <= j < old(pool)@.len() && (#[trigger] old(pool)@[j]).cache().id == tx.cache().id,
        r == Err::<(), MempoolError>(MempoolError::TooLarge) ==> tx.cache().bytes.len() > 65_536,
        r == Err::<(), MempoolError>(MempoolError::Full) ==> pool_size(old(pool)@)
            + tx.cache().bytes.len() > 67_108_864,
        0 <= i < old(pool)@.len() && spends(old(pool)@[i].unsigned@, tx_id, index) && spends(
            tx.unsigned@,
            tx_id,
            index,
        ) ==> r is Err,
        own_inputs(tx.unsigned@).len() == 0 && foreign_inputs(tx.unsigned@).len() == 0
            && tx.cache().bytes.len() <= 65_536 && pool_size(old(pool)@) + tx.cache().bytes.len()
            <= 67_108_864 && (forall|j: int|
            0 <= j < old(pool)@.len() ==> (#[trigger] old(pool)@[j]).cache().id
                != tx.cache().id) ==> r is Ok,
{
    let txs = old(pool)@;
    if 0 <= i < txs.len() && txs[i].cache().id == tx.cache().id {
        assert(pooled(txs, tx.cache().id));
    }
    if 0 <= i < txs.len() && spends(txs[i].unsigned@, tx_id, index) && spends(
        tx.unsigned@,
        tx_id,
        index,
    ) {
        let k = sha256_digest(be(index as nat, 8) + tx_id);
        lemma_spends(txs[i].unsigned@, tx_id, index);
        lemma_spends(tx.unsigned@, tx_id, index);
        assert(spent(txs, k));
        let x = inputs_of(tx.unsigned@).index_of(k);
        assert(inputs_of(tx.unsigned@)[x] == k);
    }
    if r is Ok {
        assert(txs.push(tx).drop_last() =~= txs);
    }
    assert(inputs_of(tx.unsigned@).len() == own_inputs(tx.unsigned@).len() + foreign_inputs(
        tx.unsigned@,
    ).len());
}

/// How many bytes a pool takes is what its transactions take together.
pub proof fn the_size_of_a_pool_adds_up(txs: Seq<Tx>, tx: Tx)
    ensures
        pool_size(Seq::<Tx>::empty()) == 0,
        pool_size(txs.push(tx)) == pool_size(txs) + tx.cache().bytes.len(),
{
    assert(txs.push(tx).drop_last() =~= txs);
}

/// A gossiped transaction that the pool holds already is a duplicate; one that
/// is not acceptable is dropped for that reason; any other is added unless the
/// pool refuses it. Only what is added changes the pool.
pub proof fn gossip_is_added_or_dropped<V: TxVerifier>(
    h: &TxGossipHandler,
    pool: &mut Mempool,
    v: &V,
    tx: Tx,
    r: HandleOutcome,
    i: int,
)
    requires
        old(pool).wf(),
        call_ensures(TxGossipHandler::handle_gossiped_tx::<V>, (h, pool, v, tx), r),
    ensures
        r is Added ==> final(pool)@ == old(pool)@.push(tx),
        !(r is Added) ==> final(pool)@ == old(pool)@,
        0 <= i < old(pool)@.len() && old(pool)@[i].cache().id == tx.cache().id ==> r
            == HandleOutcome::Dropped(DropReason::Duplicate),
        r == HandleOutcome::Dropped(DropReason::Duplicate) ==> exists|j: int|
            0 <= j < old(pool)@.len() && (#[trigger] old(pool)@[j]).cache().id == tx.cache().id,
        r is Added ==> tx.cache().bytes.len() <= 65_536 && exists|verdict: core::result::Result<
            (),
            String,
        >| #[trigger] call_ensures(V::verify_tx, (v, &tx), verdict) && verdict is Ok,
        (r matches HandleOutcome::Dropped(DropReason::Verification(why)) ==> call_ensures(
            V::verify_tx,
            (v, &tx),
            Err::<(), String>(why),
        )),
{
    let txs = old(pool)@;
    if 0 <= i < txs.len() && txs[i].cache().id == tx.cache().id {
        assert(pooled(txs, tx.cache().id));
    }
}

/// Two transactions that spend the same are not both added, whatever their
/// kinds.
pub proof fn conflicting_gossip_is_dropped<V: TxVerifier>(
    h: &TxGossipHandler,
    pool: &mut Mempool,
    v: &V,
    tx: Tx,
    r: HandleOutcome,
    i: int,
    tx_id: Seq<u8>,
    index: u32,
)
    requires
        old(pool).wf(),
        call_ensures(TxGossipHandler::handle_gossiped_tx::<V>, (h, pool, v, tx), r),
        0 <= i < old(pool)@.len(),
        spends(old(pool)@[i].unsigned@, tx_id, index),
        spends(tx.unsigned@, tx_id, index),
    ensures
        r is Dropped,
        final(pool)@ == old(pool)@,
{
    let txs = old(pool)@;
    let k = sha256_digest(be(index as nat, 8) + tx_id);
    lemma_spends(txs[i].unsigned@, tx_id, index);
    lemma_spends(tx.unsigned@, tx_id, index);
    assert(spent(txs, k));
    let x = inputs_of(tx.unsigned@).index_of(k);
    assert(inputs_of(tx.unsigned@)[x] == k);
}

/// Without a state, a transaction is acceptable once its id and bytes were
/// derived.
pub proof fn derived_transactions_are_acceptable(
    v: &SyntacticVerifier,
    tx: &Tx,
    r: core::result::Result<(), String>,
)
    requires
        call_ensures(SyntacticVerifier::verify_tx, (v, tx), r),
    ensures
        r is Ok <==> tx.cache().bytes.len() > 0 && tx.cache().id != Seq::new(32, |i: int| 0u8),
{
}

proof fn lemma_settled(before: Seq<Tx>, txs: Seq<Tx>, refused: Seq<Option<String>>, n: nat, i: int)
    requires
        n <= txs.len(),
    ensures
        ({
            let (outcomes, pool) = settled_all(before, txs, refused, n);
            &&& outcomes.len() == n
            &&& before.len() <= pool.len() <= before.len() + n
            &&& pool.take(before.len() as int) == before
            &&& 0 <= i < n && outcomes[i] is Added ==> pooled(pool, txs[i].cache().id)
            &&& (forall|j: int| 0 <= j < n ==> !(#[trigger] outcomes[j] is Added)) ==> pool
                == before
        }),
    decreases n,
{
    if n == 0 {
        assert(before.take(before.len() as int) =~= before);
    } else {
        lemma_settled(before, txs, refused, (n - 1) as nat, i);
        let (o, p) = settled_all(before, txs, refused, (n - 1) as nat);
        let (outcomes, pool) = settled_all(before, txs, refused, n);
        assert(pool.take(before.len() as int) =~= p.take(before.len() as int));
        if 0 <= i < n && outcomes[i] is Added {
            if i < n - 1 {
                assert(outcomes[i] == o[i]);
                let k = choose|k: int| 0 <= k < p.len() && (#[trigger] p[k]).cache().id
                    == txs[i].cache().id;
                assert(pool[k] == p[k]);
            } else {
                assert(pool[pool.len() - 1].cache().id == txs[i].cache().id);
            }
        }
        if forall|j: int| 0 <= j < n ==> !(#[trigger] outcomes[j] is Added) {
            assert(!(outcomes[n - 1] is Added));
            assert forall|j: int| 0 <= j < n - 1 implies !(#[trigger] o[j] is Added) by {
                assert(outcomes[j] == o[j]);
            }
        }
    }
}

/// Of each gossiped transaction it is told what became of it. What was added is
/// in the pool, what was there before stays, and where nothing was added the
/// pool is as it was.
pub proof fn each_gossiped_transaction_is_told_of<V: TxVerifier>(
    handler: &TxGossipHandler,
    pool: &mut Mempool,
    verifier: &V,
    txs: Vec<Tx>,
    r: Vec<HandleOutcome>,
    i: int,
)
    requires
        old(pool).wf(),
        call_ensures(TxGossipHandler::handle_gossiped_txs::<V>, (handler, pool, verifier, txs), r),
    ensures
        r@.len() == txs@.len(),
        final(pool)@.take(old(pool)@.len() as int) == old(pool)@,
        final(pool)@.len() <= old(pool)@.len() + txs@.len(),
        0 <= i < r@.len() && r@[i] is Added ==> pooled(final(pool)@, txs@[i].cache().id),
        (forall|j: int| 0 <= j < r@.len() ==> !(#[trigger] r@[j] is Added)) ==> final(pool)@
            == old(pool)@,
{
    let refused = choose|refused: Seq<Option<String>>|
        refused.len() == txs@.len() && judged_all(verifier, old(pool)@, txs@, refused) && (
            r@,
            final(pool)@,
        ) == #[trigger] settled_all(old(pool)@, txs@, refused, txs@.len());
    lemma_settled(old(pool)@, txs@, refused, txs@.len(), i);
}

/// What the pool tells of itself agrees: it holds as many transactions as it
/// gives out, and just those by their ids. A new one holds none.
pub proof fn the_pool_tells_what_it_holds(
    pool: &Mempool,
    n: usize,
    none: bool,
    txs: Vec<Tx>,
    id: Id,
    held: bool,
    first: Mempool,
    count: usize,
)
    requires
        pool.wf(),
        call_ensures(Mempool::len, (pool,), n),
        call_ensures(Mempool::is_empty, (pool,), none),
        call_ensures(Mempool::snapshot, (pool,), txs),
        call_ensures(Mempool::contains, (pool, &id), held),
        call_ensures(Mempool::new, (), first),
        call_ensures(Mempool::len, (&first,), count),
    ensures
        n == txs@.len(),
        none <==> n == 0,
        held <==> exists|i: int| 0 <= i < txs@.len() && (#[trigger] txs@[i]).tx_id@ == id@,
        count == 0,
{
    if held {
        let i = choose|i: int| 0 <= i < pool@.len() && (#[trigger] pool@[i]).cache().id == id@;
        assert(txs@[i].cache() == pool@[i].cache());
        assert(txs@[i].tx_id@ == id@);
    }
    if exists|i: int| 0 <= i < txs@.len() && (#[trigger] txs@[i]).tx_id@ == id@ {
        let i = choose|i: int| 0 <= i < txs@.len() && (#[trigger] txs@[i]).tx_id@ == id@;
        assert(txs@[i].cache() == pool@[i].cache());
        assert(pool@[i].cache().id == id@);
    }
}

} // verus!
