//! Which gossiped transactions the pool takes.
use vstd::prelude::*;

use crate::txs::mempool::{conflicts, inputs_of, lemma_pooled_push, lemma_spent_push, pool_refusal, pool_size, pooled, spent, Mempool, MempoolError, MAX_POOL_SIZE, MAX_TX_SIZE};
use crate::txs::tx::Tx;

verus! {

/// Checks transactions before the pool takes them.
pub trait TxVerifier {
    /// Checks `tx`. Where it is not acceptable, says why.
    fn verify_tx(&self, tx: &Tx) -> Result<(), String>;
}

/// Checks what can be checked without a state: that something was derived from
/// the transaction.
#[derive(Clone, Copy, Debug, Default)]
pub struct SyntacticVerifier;

impl TxVerifier for SyntacticVerifier {
    fn verify_tx(&self, tx: &Tx) -> (r: Result<(), String>)
        ensures
            r is Ok <==> tx.cache().id != crate::ids::empty_id() && tx.cache().bytes.len() > 0,
            r matches Err(s) ==> s@ == "tx is not initialized"@,
    {
        if tx.id().is_empty() || tx.bytes().len() == 0 {
            return Err("tx is not initialized".to_string());
        }
        Ok(())
    }
}

/// Why a gossiped transaction was dropped.
#[derive(Clone, Debug, PartialEq, Eq)]
#[non_exhaustive]
pub enum DropReason {
    /// It is in the pool already.
    Duplicate,
    /// It was not acceptable, for the reason given.
    Verification(String),
    /// The pool did not take it.
    Mempool(MempoolError),
}

/// What became of a gossiped transaction.
#[derive(Clone, Debug, PartialEq, Eq)]
pub enum HandleOutcome {
    /// The pool took it.
    Added,
    /// It was dropped, and the pool is as it was.
    Dropped(DropReason),
}

/// What becomes of `tx`, and what is in the pool then. `refused` is why it is
/// not acceptable, if it is not.
pub open spec fn settled(before: Seq<Tx>, tx: Tx, refused: Option<String>) -> (
    HandleOutcome,
    Seq<Tx>,
) {
    if pooled(before, tx.cache().id) {
        (HandleOutcome::Dropped(DropReason::Duplicate), before)
    } else {
        match refused {
            Some(why) => (HandleOutcome::Dropped(DropReason::Verification(why)), before),
            None => match pool_refusal(before, tx) {
                Some(e) => (HandleOutcome::Dropped(DropReason::Mempool(e)), before),
                None => (HandleOutcome::Added, before.push(tx)),
            },
        }
    }
}

/// What becomes of the first `n` transactions, one after the other, and what is
/// in the pool then.
pub open spec fn settled_all(
    before: Seq<Tx>,
    txs: Seq<Tx>,
    refused: Seq<Option<String>>,
    n: nat,
) -> (Seq<HandleOutcome>, Seq<Tx>)
    decreases n,
{
    if n == 0 {
        (Seq::empty(), before)
    } else {
        let (outcomes, pool) = settled_all(before, txs, refused, (n - 1) as nat);
        let (outcome, after) = settled(pool, txs[n - 1], refused[n - 1]);
        (outcomes.push(outcome), after)
    }
}

/// Why a transaction is not acceptable, if the verdict is that it is not.
pub open spec fn reason(verdict: Result<(), String>) -> Option<String> {
    match verdict {
        Ok(_) => None,
        Err(why) => Some(why),
    }
}

/// Whether `refused` is why `verifier` did not accept `tx`, if it did not.
pub open spec fn judged<V: TxVerifier>(verifier: &V, tx: Tx, refused: Option<String>) -> bool {
    exists|verdict: Result<(), String>| #[trigger]
        call_ensures(V::verify_tx, (verifier, &tx), verdict) && refused == reason(verdict)
}

/// Whether `refused` is why `verifier` did not accept each of the transactions,
/// where it was asked: of those that are in the pool already it is not.
pub open spec fn judged_all<V: TxVerifier>(
    verifier: &V,
    before: Seq<Tx>,
    txs: Seq<Tx>,
    refused: Seq<Option<String>>,
) -> bool {
    &&& refused.len() <= txs.len()
    &&& forall|i: int|
        0 <= i < refused.len() ==> pooled(
            settled_all(before, txs, refused, i as nat).1,
            txs[i].cache().id,
        ) || judged(verifier, txs[i], #[trigger] refused[i])
}

/// Decides what becomes of gossiped transactions.
#[derive(Clone, Copy, Debug, Default)]
pub struct TxGossipHandler;

impl TxGossipHandler {
    /// A handler.
    pub fn new() -> TxGossipHandler {
        TxGossipHandler
    }

    /// Takes a checked transaction into the pool. `verdict` is what the check
    /// said.
    pub fn settle(
        &self,
        mempool: &mut Mempool,
        verdict: Result<(), String>,
        tx: Tx,
    ) -> (r: HandleOutcome)
        requires
            old(mempool).wf(),
        ensures
            final(mempool).wf(),
            (r, final(mempool)@) == settled(
                old(mempool)@,
                tx,
                reason(verdict),
            ),
    {
        if mempool.contains(&tx.id()) {
            return HandleOutcome::Dropped(DropReason::Duplicate);
        }
        match verdict {
            Err(why) => HandleOutcome::Dropped(DropReason::Verification(why)),
            Ok(()) => match mempool.add(tx) {
                Ok(()) => HandleOutcome::Added,
                Err(e) => HandleOutcome::Dropped(DropReason::Mempool(e)),
            },
        }
    }

    /// Handles one gossiped transaction: one that is in the pool already, that
    /// is not acceptable or that the pool does not take is dropped, and the
    /// pool is as it was.
    pub fn handle_gossiped_tx<V: TxVerifier>(
        &self,
        mempool: &mut Mempool,
        verifier: &V,
        tx: Tx,
    ) -> (r: HandleOutcome)
        requires
            old(mempool).wf(),
        ensures
            final(mempool).wf(),
            exists|refused: Option<String>|
                (r, final(mempool)@) == #[trigger] settled(old(mempool)@, tx, refused) && (pooled(
                    old(mempool)@,
                    tx.cache().id,
                ) || judged(verifier, tx, refused)),
    {
        let ghost before = mempool@;
        if mempool.contains(&tx.id()) {
            assert((HandleOutcome::Dropped(DropReason::Duplicate), before) == settled(
                before,
                tx,
                None,
            ));
            return HandleOutcome::Dropped(DropReason::Duplicate);
        }
        let verdict = verifier.verify_tx(&tx);
        assert(judged(verifier, tx, reason(verdict)));
        self.settle(mempool, verdict, tx)
    }

    /// Handles gossiped transactions one after the other.
    pub fn handle_gossiped_txs<V: TxVerifier>(
        &self,
        mempool: &mut Mempool,
        verifier: &V,
        txs: Vec<Tx>,
    ) -> (r: Vec<HandleOutcome>)
        requires
            old(mempool).wf(),
        ensures
            final(mempool).wf(),
            exists|refused: Seq<Option<String>>|
                refused.len() == txs@.len() && judged_all(
                    verifier,
                    old(mempool)@,
                    txs@,
                    refused,
                ) && (r@, final(mempool)@) == #[trigger] settled_all(
                    old(mempool)@,
                    txs@,
                    refused,
                    txs@.len(),
                ),
    {
        let ghost list = txs@;
        let mut forward = txs;
        let mut rest: Vec<Tx> = Vec::new();
        while forward.len() > 0
            invariant
                forward@.len() + rest@.len() == list.len(),
                forward@ == list.take(forward@.len() as int),
                forall|j: int|
                    0 <= j < rest@.len() ==> #[trigger] rest@[j] == list[list.len() - 1 - j],
            decreases forward@.len(),
        {
            let ghost n = forward@.len();
            if let Some(tx) = forward.pop() {
                assert(tx == list[n - 1]);
                rest.push(tx);
                assert(forward@ =~= list.take(n - 1));
            }
        }
        let mut out: Vec<HandleOutcome> = Vec::new();
        let ghost mut refused: Seq<Option<String>> = Seq::empty();
        let ghost before = mempool@;
        while rest.len() > 0
            invariant
                mempool.wf(),
                rest@.len() + out@.len() == list.len(),
                refused.len() == out@.len(),
                forall|j: int|
                    0 <= j < rest@.len() ==> #[trigger] rest@[j] == list[list.len() - 1 - j],
                (out@, mempool@) == settled_all(before, list, refused, out@.len()),
                judged_all(verifier, before, list, refused),
            decreases rest@.len(),
        {
            let ghost n = out@.len();
            let ghost pool = mempool@;
            let ghost was = out@;
            if let Some(tx) = rest.pop() {
                assert(tx == list[n as int]);
                let r = self.handle_gossiped_tx(mempool, verifier, tx);
                proof {
                    let why = choose|why: Option<String>|
                        (r, mempool@) == #[trigger] settled(pool, list[n as int], why) && (pooled(
                            pool,
                            list[n as int].cache().id,
                        ) || judged(verifier, list[n as int], why));
                    let next = refused.push(why);
                    lemma_settled_prefix(before, list, refused, why, n);
                    assert(settled_all(before, list, next, n) == (was, pool));
                    assert forall|i: int| 0 <= i < next.len() implies pooled(
                        settled_all(before, list, next, i as nat).1,
                        list[i].cache().id,
                    ) || judged(verifier, list[i], #[trigger] next[i]) by {
                        lemma_settled_prefix(before, list, refused, why, i as nat);
                        if i < n {
                            assert(next[i] == refused[i]);
                        }
                    }
                    refused = next;
                }
                out.push(r);
            }
        }
        assert((out@, mempool@) == settled_all(before, list, refused, list.len()));
        out
    }
}

proof fn lemma_settled_prefix(
    before: Seq<Tx>,
    txs: Seq<Tx>,
    refused: Seq<Option<String>>,
    why: Option<String>,
    n: nat,
)
    requires
        n <= refused.len(),
    ensures
        settled_all(before, txs, refused.push(why), n) == settled_all(before, txs, refused, n),
    decreases n,
{
    if n > 0 {
        lemma_settled_prefix(before, txs, refused, why, (n - 1) as nat);
        assert(refused.push(why)[n - 1] == refused[n - 1]);
    }
}

/// Gossiping a transaction again changes nothing: it is dropped as one that is
/// in the pool already.
pub proof fn gossip_is_idempotent(
    before: Seq<Tx>,
    tx: Tx,
    refused: Option<String>,
    again: Option<String>,
)
    ensures
        ({
            let (outcome, after) = settled(before, tx, refused);
            outcome is Added ==> settled(after, tx, again) == (
                HandleOutcome::Dropped(DropReason::Duplicate),
                after,
            )
        }),
{
    let (outcome, after) = settled(before, tx, refused);
    if outcome is Added {
        lemma_pooled_push(before, tx, tx.cache().id);
    }
}

/// A transaction that is dropped leaves the pool as it was.
pub proof fn drops_leave_the_pool(before: Seq<Tx>, tx: Tx, refused: Option<String>)
    ensures
        !(settled(before, tx, refused).0 is Added) ==> settled(before, tx, refused).1 == before,
{
}

/// Whether all of the first `n` transactions fit into the pool together: each
/// is small enough, all of them find room, and no two that differ in their id
/// spend the same, nor does one spend what the pool spends already under
/// another id.
pub open spec fn compatible(before: Seq<Tx>, txs: Seq<Tx>) -> bool {
    &&& forall|i: int|
        0 <= i < txs.len() ==> (#[trigger] txs[i]).cache().bytes.len() <= MAX_TX_SIZE
    &&& pool_size(before) + pool_size(txs) <= MAX_POOL_SIZE
    &&& forall|i: int, k: Seq<u8>|
        0 <= i < txs.len() && inputs_of((#[trigger] txs[i]).unsigned@).contains(k)
            && !pooled(before, txs[i].cache().id) ==> !(#[trigger] spent(before, k))
    &&& forall|i: int, j: int, k: Seq<u8>|
        #![trigger inputs_of(txs[i].unsigned@).contains(k), inputs_of(txs[j].unsigned@).contains(k)]
        0 <= i < txs.len() && 0 <= j < txs.len() && txs[i].cache().id != txs[j].cache().id
            && inputs_of(txs[i].unsigned@).contains(k) ==> !inputs_of(txs[j].unsigned@).contains(k)
}

proof fn lemma_pool_size_take(txs: Seq<Tx>, n: int)
    requires
        0 <= n < txs.len(),
    ensures
        pool_size(txs.take(n + 1)) == pool_size(txs.take(n)) + txs[n].cache().bytes.len(),
        pool_size(txs.take(n + 1)) <= pool_size(txs),
    decreases txs.len() - n,
{
    assert(txs.take(n + 1).drop_last() =~= txs.take(n));
    if n + 1 < txs.len() {
        lemma_pool_size_take(txs, n + 1);
    } else {
        assert(txs.take(n + 1) =~= txs);
    }
}

proof fn lemma_all_admitted(before: Seq<Tx>, txs: Seq<Tx>, refused: Seq<Option<String>>, n: nat)
    requires
        n <= txs.len(),
        refused.len() == txs.len(),
        compatible(before, txs),
        forall|i: int| 0 <= i < txs.len() ==> (#[trigger] refused[i]) is None,
    ensures
        ({
            let pool = settled_all(before, txs, refused, n).1;
            &&& forall|k: Seq<u8>| #[trigger]
                pooled(pool, k) <==> pooled(before, k) || pooled(txs.take(n as int), k)
            &&& forall|k: Seq<u8>| #[trigger] spent(pool, k) ==> spent(before, k) || exists|j: int|
                0 <= j < n && inputs_of((#[trigger] txs[j]).unsigned@).contains(k) && pooled(
                    pool,
                    txs[j].cache().id,
                )
            &&& pool_size(pool) <= pool_size(before) + pool_size(txs.take(n as int))
        }),
    decreases n,
{
    if n == 0 {
        assert(txs.take(0) =~= Seq::empty());
    } else {
        let m = (n - 1) as nat;
        lemma_all_admitted(before, txs, refused, m);
        let pool = settled_all(before, txs, refused, m).1;
        let tx = txs[m as int];
        let after = settled_all(before, txs, refused, n).1;
        lemma_pool_size_take(txs, m as int);
        assert(txs.take(n as int) =~= txs.take(m as int).push(tx));
        assert(refused[m as int] is None);
        if pooled(pool, tx.cache().id) {
            assert(after == pool);
        } else {
            assert(!conflicts(pool, tx)) by {
                if conflicts(pool, tx) {
                    let x = choose|x: int|
                        0 <= x < inputs_of(tx.unsigned@).len() && spent(
                            pool,
                            #[trigger] inputs_of(tx.unsigned@)[x],
                        );
                    let k = inputs_of(tx.unsigned@)[x];
                    assert(inputs_of(tx.unsigned@).contains(k));
                    assert(!pooled(before, tx.cache().id));
                    assert(!spent(before, k));
                    let j = choose|j: int|
                        0 <= j < m && inputs_of((#[trigger] txs[j]).unsigned@).contains(k)
                            && pooled(pool, txs[j].cache().id);
                    assert(txs[j].cache().id != tx.cache().id);
                    assert(inputs_of(txs[j].unsigned@).contains(k));
                    assert(inputs_of(txs[m as int].unsigned@).contains(k));
                }
            }
            assert(pool_refusal(pool, tx) is None);
            assert(after == pool.push(tx));
            assert(after.drop_last() =~= pool);
        }
        assert forall|k: Seq<u8>| #[trigger]
            pooled(after, k) <==> pooled(before, k) || pooled(txs.take(n as int), k) by {
            lemma_pooled_push(pool, tx, k);
            lemma_pooled_push(txs.take(m as int), tx, k);
        }
        assert forall|k: Seq<u8>| #[trigger] spent(after, k) implies spent(before, k) || exists|
            j: int,
        |
            0 <= j < n && inputs_of((#[trigger] txs[j]).unsigned@).contains(k) && pooled(
                after,
                txs[j].cache().id,
            ) by {
            lemma_spent_push(pool, tx, k);
            if after == pool.push(tx) && inputs_of(tx.unsigned@).contains(k) {
                lemma_pooled_push(pool, tx, tx.cache().id);
                assert(inputs_of(txs[m as int].unsigned@).contains(k) && pooled(
                    after,
                    txs[m as int].cache().id,
                ));
            } else if !spent(before, k) {
                let j = choose|j: int|
                    0 <= j < m && inputs_of((#[trigger] txs[j]).unsigned@).contains(k) && pooled(
                        pool,
                        txs[j].cache().id,
                    );
                lemma_pooled_push(pool, tx, txs[j].cache().id);
                assert(inputs_of(txs[j].unsigned@).contains(k) && pooled(
                    after,
                    txs[j].cache().id,
                ));
            }
        }
    }
}

/// Pools that hear of the same transactions hold the same ones in the end,
/// whatever the order and however often they hear of each: where all of them
/// are acceptable and fit together, exactly they and those from before are
/// there.
pub proof fn gossip_converges(before: Seq<Tx>, txs: Seq<Tx>, refused: Seq<Option<String>>)
    requires
        refused.len() == txs.len(),
        compatible(before, txs),
        forall|i: int| 0 <= i < txs.len() ==> (#[trigger] refused[i]) is None,
    ensures
        forall|k: Seq<u8>| #[trigger]
            pooled(settled_all(before, txs, refused, txs.len()).1, k) <==> pooled(before, k)
                || pooled(txs, k),
{
    lemma_all_admitted(before, txs, refused, txs.len());
    assert(txs.take(txs.len() as int) =~= txs);
}

/// Whether `verifier` accepts `tx`, whatever the call comes to.
pub open spec fn accepts<V: TxVerifier>(verifier: &V, tx: Tx) -> bool {
    forall|verdict: Result<(), String>| #[trigger]
        call_ensures(V::verify_tx, (verifier, &tx), verdict) ==> verdict is Ok
}

/// Whether every transaction has an id of its own.
pub open spec fn distinct(txs: Seq<Tx>) -> bool {
    forall|i: int, j: int|
        0 <= i < j < txs.len() ==> (#[trigger] txs[i]).cache().id != (
        #[trigger] txs[j]).cache().id
}

/// The ids of the transactions.
pub open spec fn ids_of(txs: Seq<Tx>) -> Set<Seq<u8>> {
    txs.map_values(|t: Tx| t.cache().id).to_set()
}

proof fn lemma_pool_size_concat(a: Seq<Tx>, b: Seq<Tx>)
    ensures
        pool_size(a + b) == pool_size(a) + pool_size(b),
    decreases b.len(),
{
    if b.len() == 0 {
        assert(a + b =~= a);
    } else {
        lemma_pool_size_concat(a, b.drop_last());
        assert((a + b).drop_last() =~= a + b.drop_last());
    }
}

proof fn lemma_all_added<V: TxVerifier>(
    verifier: &V,
    before: Seq<Tx>,
    txs: Seq<Tx>,
    refused: Seq<Option<String>>,
    n: nat,
)
    requires
        n <= txs.len(),
        refused.len() == txs.len(),
        judged_all(verifier, before, txs, refused),
        forall|i: int| 0 <= i < txs.len() ==> accepts(verifier, #[trigger] txs[i]),
        compatible(before, txs),
        distinct(txs),
        forall|i: int| 0 <= i < txs.len() ==> !pooled(before, (#[trigger] txs[i]).cache().id),
    ensures
        settled_all(before, txs, refused, n).0 == Seq::new(n, |i: int| HandleOutcome::Added),
        settled_all(before, txs, refused, n).1 == before + txs.take(n as int),
    decreases n,
{
    if n == 0 {
        assert(before + txs.take(0) =~= before);
    } else {
        let m = (n - 1) as nat;
        lemma_all_added(verifier, before, txs, refused, m);
        let pool = before + txs.take(m as int);
        let tx = txs[m as int];
        assert(!pooled(pool, tx.cache().id)) by {
            if pooled(pool, tx.cache().id) {
                let i = choose|i: int|
                    0 <= i < pool.len() && (#[trigger] pool[i]).cache().id == tx.cache().id;
                if i < before.len() {
                    assert(before[i].cache().id == tx.cache().id);
                } else {
                    assert(pool[i] == txs[i - before.len()]);
                }
            }
        }
        assert(judged(verifier, tx, refused[m as int]));
        assert(refused[m as int] is None);
        lemma_pool_size_concat(before, txs.take(m as int));
        lemma_pool_size_take(txs, m as int);
        assert(!conflicts(pool, tx)) by {
            if conflicts(pool, tx) {
                let x = choose|x: int|
                    0 <= x < inputs_of(tx.unsigned@).len() && spent(
                        pool,
                        #[trigger] inputs_of(tx.unsigned@)[x],
                    );
                let k = inputs_of(tx.unsigned@)[x];
                assert(inputs_of(tx.unsigned@).contains(k));
                let i = choose|i: int|
                    0 <= i < pool.len() && inputs_of((#[trigger] pool[i]).unsigned@).contains(k);
                if i < before.len() {
                    assert(inputs_of(before[i].unsigned@).contains(k));
                    assert(spent(before, k));
                } else {
                    let j = i - before.len();
                    assert(pool[i] == txs[j]);
                    assert(inputs_of(txs[j].unsigned@).contains(k));
                    assert(inputs_of(txs[m as int].unsigned@).contains(k));
                }
            }
        }
        assert(pool_refusal(pool, tx) is None);
        assert(before + txs.take(n as int) =~= pool.push(tx));
        assert(Seq::new(n, |i: int| HandleOutcome::Added) =~= Seq::new(
            m,
            |i: int| HandleOutcome::Added,
        ).push(HandleOutcome::Added));
    }
}

/// Transactions that are new, accepted and fit together are all added, in the
/// order in which they came.
pub proof fn fitting_gossip_is_all_added<V: TxVerifier>(
    verifier: &V,
    before: Seq<Tx>,
    txs: Seq<Tx>,
    refused: Seq<Option<String>>,
)
    requires
        refused.len() == txs.len(),
        judged_all(verifier, before, txs, refused),
        forall|i: int| 0 <= i < txs.len() ==> accepts(verifier, #[trigger] txs[i]),
        compatible(before, txs),
        distinct(txs),
        forall|i: int| 0 <= i < txs.len() ==> !pooled(before, (#[trigger] txs[i]).cache().id),
    ensures
        ({
            let (outcomes, pool) = settled_all(before, txs, refused, txs.len());
            &&& outcomes.len() == txs.len()
            &&& forall|i: int| 0 <= i < outcomes.len() ==> (#[trigger] outcomes[i]) is Added
            &&& pool == before + txs
        }),
{
    lemma_all_added(verifier, before, txs, refused, txs.len());
    assert(txs.take(txs.len() as int) =~= txs);
}

proof fn lemma_pool_size_permuted(a: Seq<Tx>, b: Seq<Tx>)
    requires
        a.to_multiset() == b.to_multiset(),
    ensures
        a.len() == b.len(),
        pool_size(a) == pool_size(b),
    decreases b.len(),
{
    a.to_multiset_ensures();
    b.to_multiset_ensures();
    if b.len() > 0 {
        let x = b.last();
        assert(b.to_multiset().count(x) > 0) by {
            assert(b.contains(x));
        }
        assert(a.contains(x));
        let i = a.index_of(x);
        let head = a.take(i);
        let tail = a.skip(i + 1);
        assert(a =~= (head.push(x)) + tail);
        assert(a.remove(i) =~= head + tail);
        lemma_pool_size_concat(head.push(x), tail);
        lemma_pool_size_concat(head, tail);
        assert(head.push(x).drop_last() =~= head);
        assert(b.remove(b.len() - 1) =~= b.drop_last());
        lemma_pool_size_permuted(a.remove(i), b.drop_last());
    }
}

proof fn lemma_permuted(a: Seq<Tx>, b: Seq<Tx>, i: int) -> (j: int)
    requires
        a.to_multiset() == b.to_multiset(),
        0 <= i < b.len(),
    ensures
        0 <= j < a.len(),
        a[j] == b[i],
{
    a.to_multiset_ensures();
    b.to_multiset_ensures();
    assert(b.contains(b[i]));
    assert(b.to_multiset().count(b[i]) > 0);
    assert(a.contains(b[i]));
    a.index_of(b[i])
}

proof fn lemma_ids(txs: Seq<Tx>)
    requires
        distinct(txs),
    ensures
        ids_of(txs).finite(),
        ids_of(txs).len() == txs.len(),
{
    let ids = txs.map_values(|t: Tx| t.cache().id);
    assert(ids.no_duplicates()) by {
        assert forall|i: int, j: int|
            0 <= i < ids.len() && 0 <= j < ids.len() && i != j implies ids[i] != ids[j] by {
            if i < j {
                assert(txs[i].cache().id != txs[j].cache().id);
            } else {
                assert(txs[j].cache().id != txs[i].cache().id);
            }
        }
    }
    ids.unique_seq_to_set();
    vstd::seq_lib::seq_to_set_is_finite(ids);
}

/// Two empty pools that hear of the same transactions, in whatever order, add
/// every one of them and hold the same ids in the end, as many as there were
/// transactions: where they are accepted, differ in their ids and fit together.
pub proof fn the_order_of_gossip_does_not_matter<V: TxVerifier>(
    verifier: &V,
    txs: Seq<Tx>,
    refused: Seq<Option<String>>,
    other: Seq<Tx>,
    other_refused: Seq<Option<String>>,
)
    requires
        txs.to_multiset() == other.to_multiset(),
        refused.len() == txs.len(),
        other_refused.len() == other.len(),
        judged_all(verifier, Seq::empty(), txs, refused),
        judged_all(verifier, Seq::empty(), other, other_refused),
        forall|i: int| 0 <= i < txs.len() ==> accepts(verifier, #[trigger] txs[i]),
        compatible(Seq::empty(), txs),
        distinct(txs),
    ensures
        ({
            let (a, pool) = settled_all(Seq::empty(), txs, refused, txs.len());
            let (b, other_pool) = settled_all(Seq::empty(), other, other_refused, other.len());
            &&& a.len() == txs.len()
            &&& b.len() == txs.len()
            &&& forall|i: int| 0 <= i < a.len() ==> (#[trigger] a[i]) is Added
            &&& forall|i: int| 0 <= i < b.len() ==> (#[trigger] b[i]) is Added
            &&& ids_of(pool) == ids_of(other_pool)
            &&& ids_of(pool).len() == txs.len()
        }),
{
    let none = Seq::<Tx>::empty();
    lemma_pool_size_permuted(txs, other);
    lemma_ids(txs);
    assert forall|i: int| 0 <= i < other.len() implies (#[trigger] other[i]).cache().bytes.len()
        <= MAX_TX_SIZE && accepts(verifier, other[i]) by {
        let j = lemma_permuted(txs, other, i);
        assert(accepts(verifier, txs[j]));
    }
    assert(ids_of(txs) =~= ids_of(other)) by {
        let x = txs.map_values(|t: Tx| t.cache().id);
        let y = other.map_values(|t: Tx| t.cache().id);
        assert forall|k: Seq<u8>| x.to_set().contains(k) implies y.to_set().contains(k) by {
            let i = x.index_of(k);
            let j = lemma_permuted(other, txs, i);
            assert(y[j] == k);
        }
        assert forall|k: Seq<u8>| y.to_set().contains(k) implies x.to_set().contains(k) by {
            let i = y.index_of(k);
            let j = lemma_permuted(txs, other, i);
            assert(x[j] == k);
        }
    }
    assert(distinct(other)) by {
        let y = other.map_values(|t: Tx| t.cache().id);
        y.lemma_no_dup_set_cardinality();
        assert forall|i: int, j: int| 0 <= i < j < other.len() implies (
        #[trigger] other[i]).cache().id != (#[trigger] other[j]).cache().id by {
            assert(y[i] == other[i].cache().id && y[j] == other[j].cache().id);
        }
    }
    assert(compatible(none, other)) by {
        assert forall|i: int, j: int, k: Seq<u8>|
            #![trigger inputs_of(other[i].unsigned@).contains(k), inputs_of(other[j].unsigned@).contains(k)]
            0 <= i < other.len() && 0 <= j < other.len() && other[i].cache().id
                != other[j].cache().id && inputs_of(other[i].unsigned@).contains(k)
                implies !inputs_of(other[j].unsigned@).contains(k) by {
            let a = lemma_permuted(txs, other, i);
            let b = lemma_permuted(txs, other, j);
            assert(inputs_of(txs[a].unsigned@).contains(k));
        }
    }
    fitting_gossip_is_all_added(verifier, none, txs, refused);
    fitting_gossip_is_all_added(verifier, none, other, other_refused);
    assert(none + txs =~= txs);
    assert(none + other =~= other);
}

} // verus!
