//! The transactions that wait to be put into a block.
use vstd::prelude::*;

use crate::collections::ordmap::{Dup, Key, OrdMap};
use crate::ids::Id;
use crate::state::chain::id_bytes;
use crate::txs::components::{BaseTx, BaseTxView, TransferableInput, TransferableInputView};
use crate::txs::tx::Tx;
use crate::txs::unsigned::{UnsignedTx, UnsignedTxView};
use crate::utxo::{input_id_of, prefixed_id};
use crate::wire::List;

verus! {

/// How many bytes a transaction may take.
pub const MAX_TX_SIZE: usize = 65_536;

/// How many bytes all the transactions may take together.
pub const MAX_POOL_SIZE: usize = 67_108_864;

/// Why a transaction is not taken.
#[derive(Clone, Copy, Debug, PartialEq, Eq, Structural)]
pub enum MempoolError {
    /// It is there already.
    Duplicate,
    /// It takes too many bytes.
    TooLarge,
    /// There is no room left for it.
    Full,
    /// It spends what another one spends.
    Conflict,
}

/// What most transactions have in common, of one that has it.
pub open spec fn base_of(v: UnsignedTxView) -> Option<BaseTxView> {
    match v {
        UnsignedTxView::AddValidator(t) => Some(t.base),
        UnsignedTxView::AddSubnetValidator(t) => Some(t.base),
        UnsignedTxView::AddDelegator(t) => Some(t.base),
        UnsignedTxView::CreateChain(t) => Some(t.base),
        UnsignedTxView::CreateSubnet(t) => Some(t.base),
        UnsignedTxView::Import(t) => Some(t.base),
        UnsignedTxView::Export(t) => Some(t.base),
        UnsignedTxView::AdvanceTime(_) => None,
        UnsignedTxView::RewardValidator(_) => None,
        UnsignedTxView::RemoveSubnetValidator(t) => Some(t.base),
        UnsignedTxView::TransformSubnet(t) => Some(t.base),
        UnsignedTxView::AddPermissionlessValidator(t) => Some(t.base),
        UnsignedTxView::AddPermissionlessDelegator(t) => Some(t.base),
        UnsignedTxView::TransferSubnetOwnership(t) => Some(t.base),
        UnsignedTxView::Base(t) => Some(t),
        UnsignedTxView::ConvertSubnetToL1(t) => Some(t.base),
        UnsignedTxView::RegisterL1Validator(t) => Some(t.base),
        UnsignedTxView::SetL1ValidatorWeight(t) => Some(t.base),
        UnsignedTxView::IncreaseL1ValidatorBalance(t) => Some(t.base),
        UnsignedTxView::DisableL1Validator(t) => Some(t.base),
    }
}

/// The ids of the outputs that the inputs spend.
pub open spec fn ids_spent(ins: Seq<TransferableInputView>) -> Seq<Seq<u8>> {
    Seq::new(ins.len(), |i: int| input_id_of(ins[i].tx_id, ins[i].output_index as u64))
}

/// The ids of the outputs that a transaction spends, those on other chains
/// included.
pub open spec fn inputs_of(v: UnsignedTxView) -> Seq<Seq<u8>> {
    match base_of(v) {
        Some(b) => ids_spent(b.ins) + match v {
            UnsignedTxView::Import(t) => ids_spent(t.imported_inputs),
            _ => Seq::empty(),
        },
        None => Seq::empty(),
    }
}

fn base_in(tx: &UnsignedTx) -> (r: Option<&BaseTx>)
    ensures
        match base_of(tx@) {
            Some(b) => r is Some && r->0@ == b,
            None => r is None,
        },
{
    match tx {
        UnsignedTx::AddValidator(t) => Some(&t.base),
        UnsignedTx::AddSubnetValidator(t) => Some(&t.base),
        UnsignedTx::AddDelegator(t) => Some(&t.base),
        UnsignedTx::CreateChain(t) => Some(&t.base),
        UnsignedTx::CreateSubnet(t) => Some(&t.base),
        UnsignedTx::Import(t) => Some(&t.base),
        UnsignedTx::Export(t) => Some(&t.base),
        UnsignedTx::AdvanceTime(_) => None,
        UnsignedTx::RewardValidator(_) => None,
        UnsignedTx::RemoveSubnetValidator(t) => Some(&t.base),
        UnsignedTx::TransformSubnet(t) => Some(&t.base),
        UnsignedTx::AddPermissionlessValidator(t) => Some(&t.base),
        UnsignedTx::AddPermissionlessDelegator(t) => Some(&t.base),
        UnsignedTx::TransferSubnetOwnership(t) => Some(&t.base),
        UnsignedTx::Base(t) => Some(t),
        UnsignedTx::ConvertSubnetToL1(t) => Some(&t.base),
        UnsignedTx::RegisterL1Validator(t) => Some(&t.base),
        UnsignedTx::SetL1ValidatorWeight(t) => Some(&t.base),
        UnsignedTx::IncreaseL1ValidatorBalance(t) => Some(&t.base),
        UnsignedTx::DisableL1Validator(t) => Some(&t.base),
    }
}

fn push_spent(out: &mut Vec<Id>, ins: &List<TransferableInput>)
    ensures
        id_bytes(final(out)@) == id_bytes(old(out)@) + ids_spent(ins@),
{
    let n: usize = ins.items.len();
    let ghost views = ins@;
    let ghost before = id_bytes(out@);
    let mut i: usize = 0;
    assert(before + ids_spent(views).take(0) =~= before);
    while i < n
        invariant
            i <= n,
            n == ins.items@.len(),
            views == ins@,
            id_bytes(out@) == before + ids_spent(views).take(i as int),
        decreases n - i,
    {
        let input = &ins.items[i];
        let ghost was = out@;
        assert(views[i as int] == input@);
        out.push(prefixed_id(input.tx_id, input.output_index as u64));
        assert(id_bytes(out@) =~= id_bytes(was).push(ids_spent(views)[i as int]));
        assert(ids_spent(views).take(i + 1) =~= ids_spent(views).take(i as int).push(
            ids_spent(views)[i as int],
        ));
        i += 1;
    }
    assert(ids_spent(views).take(n as int) =~= ids_spent(views));
}

/// The ids of the outputs that `tx` spends, those on other chains included.
pub fn input_ids(tx: &UnsignedTx) -> (r: Vec<Id>)
    ensures
        id_bytes(r@) == inputs_of(tx@),
{
    let mut out: Vec<Id> = Vec::new();
    if let Some(base) = base_in(tx) {
        push_spent(&mut out, &base.ins);
        if let UnsignedTx::Import(t) = tx {
            push_spent(&mut out, &t.imported_inputs);
        }
    }
    assert(id_bytes(out@) =~= inputs_of(tx@));
    out
}

/// Whether a transaction with the id `id` is in the pool.
pub open spec fn pooled(txs: Seq<Tx>, id: Seq<u8>) -> bool {
    exists|i: int| 0 <= i < txs.len() && (#[trigger] txs[i]).cache().id == id
}

/// Whether a transaction in the pool spends the output `id`.
pub open spec fn spent(txs: Seq<Tx>, id: Seq<u8>) -> bool {
    exists|i: int| 0 <= i < txs.len() && inputs_of((#[trigger] txs[i]).unsigned@).contains(id)
}

/// How many bytes the transactions take.
pub open spec fn pool_size(txs: Seq<Tx>) -> nat
    decreases txs.len(),
{
    if txs.len() == 0 {
        0
    } else {
        pool_size(txs.drop_last()) + txs.last().cache().bytes.len()
    }
}

/// Whether `tx` spends what a transaction in the pool spends.
pub open spec fn conflicts(txs: Seq<Tx>, tx: Tx) -> bool {
    exists|j: int|
        0 <= j < inputs_of(tx.unsigned@).len() && spent(txs, #[trigger] inputs_of(tx.unsigned@)[j])
}

/// Why the pool does not take `tx`, if it does not.
pub open spec fn pool_refusal(txs: Seq<Tx>, tx: Tx) -> Option<MempoolError> {
    let size = tx.cache().bytes.len();
    if pooled(txs, tx.cache().id) {
        Some(MempoolError::Duplicate)
    } else if size > MAX_TX_SIZE {
        Some(MempoolError::TooLarge)
    } else if pool_size(txs) + size > MAX_POOL_SIZE {
        Some(MempoolError::Full)
    } else if conflicts(txs, tx) {
        Some(MempoolError::Conflict)
    } else {
        None
    }
}

/// The transactions that wait to be put into a block, the first one first.
pub struct Mempool {
    txs: Vec<Tx>,
    ids: OrdMap<Id, ()>,
    consumed: OrdMap<Id, ()>,
    bytes_available: usize,
}

impl View for Mempool {
    type V = Seq<Tx>;

    closed spec fn view(&self) -> Seq<Tx> {
        self.txs@
    }
}

impl Mempool {
    /// The indices follow from the transactions.
    pub closed spec fn wf(&self) -> bool {
        &&& forall|k: Seq<u8>| #[trigger] self.ids@.contains_key(k) <==> pooled(self.txs@, k)
        &&& forall|k: Seq<u8>| #[trigger] self.consumed@.contains_key(k) <==> spent(self.txs@, k)
        &&& self.bytes_available + pool_size(self.txs@) == MAX_POOL_SIZE
    }

    /// An empty pool.
    pub fn new() -> (r: Mempool)
        ensures
            r.wf(),
            r@ == Seq::<Tx>::empty(),
    {
        let r = Mempool {
            txs: Vec::new(),
            ids: OrdMap::new(),
            consumed: OrdMap::new(),
            bytes_available: MAX_POOL_SIZE,
        };
        assert(r@ =~= Seq::empty());
        r
    }

    /// How many transactions there are.
    pub fn len(&self) -> (r: usize)
        ensures
            r == self@.len(),
    {
        self.txs.len()
    }

    /// Whether there are none.
    pub fn is_empty(&self) -> (r: bool)
        ensures
            r == (self@.len() == 0),
    {
        self.txs.len() == 0
    }

    /// Whether the transaction `id` is there.
    pub fn contains(&self, id: &Id) -> (r: bool)
        requires
            self.wf(),
        ensures
            r == pooled(self@, id@),
    {
        self.ids.contains(id)
    }

    /// The transactions, the first one first.
    pub fn snapshot(&self) -> (r: Vec<Tx>)
        ensures
            r@.len() == self@.len(),
            forall|i: int|
                0 <= i < r@.len() ==> (#[trigger] r@[i])@ == self@[i]@ && r@[i].cache()
                    == self@[i].cache(),
    {
        let n: usize = self.txs.len();
        let mut out: Vec<Tx> = Vec::new();
        let mut i: usize = 0;
        while i < n
            invariant
                i <= n,
                n == self.txs@.len(),
                out@.len() == i,
                forall|j: int|
                    0 <= j < i ==> (#[trigger] out@[j])@ == self.txs@[j]@ && out@[j].cache()
                        == self.txs@[j].cache(),
            decreases n - i,
        {
            out.push(self.txs[i].dup());
            i += 1;
        }
        out
    }

    fn any_consumed(&self, inputs: &Vec<Id>) -> (r: bool)
        ensures
            r == exists|j: int|
                0 <= j < inputs@.len() && self.consumed@.contains_key((#[trigger] inputs@[j])@),
    {
        let n: usize = inputs.len();
        let mut i: usize = 0;
        while i < n
            invariant
                i <= n,
                n == inputs@.len(),
                forall|j: int|
                    0 <= j < i ==> !self.consumed@.contains_key((#[trigger] inputs@[j])@),
            decreases n - i,
        {
            if self.consumed.contains(&inputs[i]) {
                assert(self.consumed@.contains_key(inputs@[i as int]@));
                return true;
            }
            i += 1;
        }
        false
    }

    /// Adds `tx` behind the others, unless there is a reason not to.
    pub fn add(&mut self, tx: Tx) -> (r: core::result::Result<(), MempoolError>)
        requires
            old(self).wf(),
        ensures
            final(self).wf(),
            match pool_refusal(old(self)@, tx) {
                Some(e) => r == Err::<(), MempoolError>(e) && final(self)@ == old(self)@,
                None => r is Ok && final(self)@ == old(self)@.push(tx),
            },
    {
        let id = tx.id();
        if self.ids.contains(&id) {
            return Err(MempoolError::Duplicate);
        }
        let size: usize = tx.bytes().len();
        if size > MAX_TX_SIZE {
            return Err(MempoolError::TooLarge);
        }
        if size > self.bytes_available {
            return Err(MempoolError::Full);
        }
        let inputs = input_ids(&tx.unsigned);
        let ghost iv = inputs_of(tx.unsigned@);
        let ghost before = self.txs@;
        let taken = self.any_consumed(&inputs);
        proof {
            assert(inputs@.map_values(|x: Id| x@) == iv);
            assert(iv.len() == inputs@.len());
            if taken {
                let j = choose|j: int|
                    0 <= j < inputs@.len() && self.consumed@.contains_key(
                        (#[trigger] inputs@[j])@,
                    );
                assert(iv[j] == inputs@[j]@);
                assert(spent(before, iv[j]));
            } else {
                assert forall|j: int| 0 <= j < iv.len() implies !spent(
                    before,
                    #[trigger] iv[j],
                ) by {
                    assert(iv[j] == inputs@[j]@);
                }
            }
        }
        if taken {
            return Err(MempoolError::Conflict);
        }
        self.bytes_available = self.bytes_available - size;
        self.ids.insert(id, ());
        let n: usize = inputs.len();
        let mut i: usize = 0;
        let ghost start = *self;
        while i < n
            invariant
                i <= n,
                n == inputs@.len(),
                n == iv.len(),
                forall|j: int| 0 <= j < n ==> (#[trigger] iv[j]) == inputs@[j]@,
                self.txs == start.txs,
                self.ids == start.ids,
                self.bytes_available == start.bytes_available,
                forall|k: Seq<u8>| #[trigger]
                    self.consumed@.contains_key(k) <==> start.consumed@.contains_key(k)
                        || iv.take(i as int).contains(k),
            decreases n - i,
        {
            let ghost was = self.consumed@;
            self.consumed.insert(inputs[i], ());
            proof {
                assert forall|k: Seq<u8>| #[trigger]
                    self.consumed@.contains_key(k) <==> start.consumed@.contains_key(k)
                        || iv.take(i + 1).contains(k) by {
                    assert(iv.take(i + 1) =~= iv.take(i as int).push(iv[i as int]));
                    assert(was.contains_key(k) <==> start.consumed@.contains_key(k) || iv.take(
                        i as int,
                    ).contains(k));
                    lemma_push_contains(iv.take(i as int), iv[i as int], k);
                }
            }
            i += 1;
        }
        self.txs.push(tx);
        proof {
            assert(iv.take(n as int) =~= iv);
            let after = self.txs@;
            assert(after.drop_last() =~= before);
            assert(after.last() == tx);
            assert forall|k: Seq<u8>| #[trigger]
                self.ids@.contains_key(k) <==> pooled(after, k) by {
                lemma_pooled_push(before, tx, k);
            }
            assert forall|k: Seq<u8>| #[trigger]
                self.consumed@.contains_key(k) <==> spent(after, k) by {
                lemma_spent_push(before, tx, k);
            }
        }
        Ok(())
    }
}

proof fn lemma_push_contains(s: Seq<Seq<u8>>, x: Seq<u8>, k: Seq<u8>)
    ensures
        s.push(x).contains(k) <==> s.contains(k) || k == x,
{
    if s.contains(k) {
        assert(s.push(x)[s.index_of(k)] == k);
    }
    if k == x {
        assert(s.push(x)[s.len() as int] == k);
    }
    if s.push(x).contains(k) {
        let i = s.push(x).index_of(k);
        if i < s.len() {
            assert(s[i] == k);
        }
    }
}

/// What is in the pool once `tx` is behind the others.
pub proof fn lemma_pooled_push(txs: Seq<Tx>, tx: Tx, k: Seq<u8>)
    ensures
        pooled(txs.push(tx), k) <==> pooled(txs, k) || tx.cache().id == k,
{
    let after = txs.push(tx);
    if pooled(txs, k) {
        let i = choose|i: int| 0 <= i < txs.len() && (#[trigger] txs[i]).cache().id == k;
        assert(after[i].cache().id == k);
    }
    if tx.cache().id == k {
        assert(after[txs.len() as int].cache().id == k);
    }
    if pooled(after, k) {
        let i = choose|i: int| 0 <= i < after.len() && (#[trigger] after[i]).cache().id == k;
        if i < txs.len() {
            assert(txs[i].cache().id == k);
        }
    }
}

/// What is spent once `tx` is behind the others.
pub proof fn lemma_spent_push(txs: Seq<Tx>, tx: Tx, k: Seq<u8>)
    ensures
        spent(txs.push(tx), k) <==> spent(txs, k) || inputs_of(tx.unsigned@).contains(k),
{
    let after = txs.push(tx);
    if spent(txs, k) {
        let i = choose|i: int|
            0 <= i < txs.len() && inputs_of((#[trigger] txs[i]).unsigned@).contains(k);
        assert(inputs_of(after[i].unsigned@).contains(k));
    }
    if inputs_of(tx.unsigned@).contains(k) {
        assert(inputs_of(after[txs.len() as int].unsigned@).contains(k));
    }
    if spent(after, k) {
        let i = choose|i: int|
            0 <= i < after.len() && inputs_of((#[trigger] after[i]).unsigned@).contains(k);
        if i < txs.len() {
            assert(inputs_of(txs[i].unsigned@).contains(k));
        }
    }
}

} // verus!
