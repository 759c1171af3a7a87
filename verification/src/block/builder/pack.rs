//! Choosing the transactions of a block.
use vstd::prelude::*;

use crate::txs::tx::Tx;

verus! {

/// How many bytes the first `n` transactions take.
pub open spec fn size_of(txs: Seq<Tx>, n: nat) -> nat
    decreases n,
{
    if n == 0 {
        0
    } else {
        size_of(txs, (n - 1) as nat) + txs[n - 1].cache().bytes.len()
    }
}

/// Whether the first `n` transactions take more than `cap` bytes. Sizes that
/// cannot be told count as the largest that can.
pub open spec fn over_cap(txs: Seq<Tx>, n: nat, cap: usize) -> bool {
    size_of(txs, n) > cap && cap < usize::MAX
}

/// How many transactions a block takes once it has the first `i`: one at least,
/// and then every further one up to the first that is too much.
pub open spec fn pack_count(txs: Seq<Tx>, cap: usize, i: nat) -> nat
    decreases txs.len() - i,
{
    if i >= txs.len() {
        txs.len()
    } else if i > 0 && over_cap(txs, i + 1, cap) {
        i
    } else {
        pack_count(txs, cap, i + 1)
    }
}

/// The transactions that a block takes: the first of `txs`, as many as fit into
/// `cap` bytes, and one at least.
pub fn pack_decision_txs(txs: Vec<Tx>, cap: usize) -> (r: Vec<Tx>)
    ensures
        r@ == txs@.take(pack_count(txs@, cap, 0) as int),
        pack_count(txs@, cap, 0) <= txs@.len(),
{
    let n: usize = txs.len();
    let mut i: usize = 0;
    let mut size: usize = 0;
    while i < n
        invariant_except_break
            i <= n,
            n == txs@.len(),
            size == if size_of(txs@, i as nat) > usize::MAX {
                usize::MAX as nat
            } else {
                size_of(txs@, i as nat)
            },
            pack_count(txs@, cap, 0) == pack_count(txs@, cap, i as nat),
        ensures
            i <= n,
            i == pack_count(txs@, cap, 0),
        decreases n - i,
    {
        let len: usize = txs[i].bytes().len();
        let next: usize = match size.checked_add(len) {
            Some(s) => s,
            None => usize::MAX,
        };
        if i > 0 && next > cap {
            break;
        }
        size = next;
        i += 1;
    }
    let mut out = txs;
    out.truncate(i);
    out
}

proof fn lemma_pack_count(txs: Seq<Tx>, cap: usize, i: nat)
    requires
        i <= txs.len(),
        i > 1 ==> !over_cap(txs, i, cap),
    ensures
        i <= pack_count(txs, cap, i) <= txs.len(),
        pack_count(txs, cap, i) > 1 ==> !over_cap(txs, pack_count(txs, cap, i), cap),
        pack_count(txs, cap, i) < txs.len() ==> pack_count(txs, cap, i) > 0 && over_cap(
            txs,
            pack_count(txs, cap, i) + 1,
            cap,
        ),
    decreases txs.len() - i,
{
    if i < txs.len() && !(i > 0 && over_cap(txs, i + 1, cap)) {
        lemma_pack_count(txs, cap, i + 1);
    }
}

/// The transactions of a block fit the cap, unless the first one alone does
/// not, and nothing is left out that would have fit.
pub proof fn packed_txs_fit(txs: Seq<Tx>, cap: usize)
    ensures
        pack_count(txs, cap, 0) <= txs.len(),
        pack_count(txs, cap, 0) > 1 ==> !over_cap(txs, pack_count(txs, cap, 0), cap),
        pack_count(txs, cap, 0) < txs.len() ==> pack_count(txs, cap, 0) > 0 && over_cap(
            txs,
            pack_count(txs, cap, 0) + 1,
            cap,
        ),
{
    lemma_pack_count(txs, cap, 0);
}

} // verus!
