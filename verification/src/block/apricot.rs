//! Block bodies without a time.
use vstd::prelude::*;

use crate::codec::{lemma_concat, CodecError, Reader};
use crate::collections::ordmap::Dup;
use crate::ids::Id;
use crate::txs::tx::{Tx, TxView};
use crate::wire::{List, Read, Wire};

verus! {

/// What every block says: which block it follows, and its height.
#[derive(Debug, PartialEq, Eq)]
pub struct CommonBlock {
    /// The block that this one follows.
    pub parent_id: Id,
    /// The height, which is 0 for the genesis block.
    pub height: u64,
}

/// What a [`CommonBlock`] holds.
#[verifier::ext_equal]
pub struct CommonBlockView {
    /// The block that this one follows.
    pub parent_id: Seq<u8>,
    /// The height, which is 0 for the genesis block.
    pub height: u64,
}

impl View for CommonBlock {
    type V = CommonBlockView;

    open spec fn view(&self) -> CommonBlockView {
        CommonBlockView {
            parent_id: self.parent_id@,
            height: self.height@,
        }
    }
}

impl Dup for CommonBlock {
    fn dup(&self) -> (r: CommonBlock) {
        CommonBlock {
            parent_id: self.parent_id.dup(),
            height: self.height.dup(),
        }
    }
}

/// Whether every length of a [`CommonBlock`] fits its field.
#[verifier::opaque]
pub open spec fn common_block_fits(v: CommonBlockView) -> bool {
    &&& Id::fits(v.parent_id)
    &&& u64::fits(v.height)
}

/// The fields of a [`CommonBlock`], in the order in which they are written.
#[verifier::opaque]
pub open spec fn common_block_ser(v: CommonBlockView) -> Seq<u8> {
    Id::ser(v.parent_id) + (u64::ser(v.height))
}

/// The fields of a [`CommonBlock`] at the start of `s`, and what follows.
#[verifier::opaque]
pub open spec fn common_block_de(s: Seq<u8>) -> Read<CommonBlockView> {
    match Id::de(s) {
        Err(e) => Err(e),
        Ok((parent_id, s)) =>
    match u64::de(s) {
        Err(e) => Err(e),
        Ok((height, s)) =>
        Ok((CommonBlockView { parent_id, height }, s)),
    },}
}

impl Wire for CommonBlock {
    open spec fn fits(v: CommonBlockView) -> bool {
        common_block_fits(v)
    }

    open spec fn ser(v: CommonBlockView) -> Seq<u8> {
        common_block_ser(v)
    }

    open spec fn de(s: Seq<u8>) -> Read<CommonBlockView> {
        common_block_de(s)
    }

    proof fn round_trip(v: CommonBlockView, t: Seq<u8>) {
        reveal(common_block_fits);
        reveal(common_block_ser);
        reveal(common_block_de);
        let r1 = u64::ser(v.height);
        u64::round_trip(v.height, t);
        lemma_concat(Id::ser(v.parent_id), r1, t);
        Id::round_trip(v.parent_id, r1 + t);
    }

    proof fn canonical(s: Seq<u8>) {
        reveal(common_block_fits);
        reveal(common_block_ser);
        reveal(common_block_de);
        if let Ok((v, t)) = Self::de(s) {
            Id::canonical(s);
            let s1 = (Id::de(s)->Ok_0).1;
            u64::canonical(s1);
            let r1 = u64::ser(v.height);
            lemma_concat(Id::ser(v.parent_id), r1, t);
        }
    }

    fn can_write(&self) -> (r: bool) {
        proof {
            reveal(common_block_fits);
        }
        self.parent_id.can_write() && self.height.can_write()
    }

    fn write(&self, out: &mut Vec<u8>) {
        proof {
            reveal(common_block_fits);
            reveal(common_block_ser);
        }
        self.parent_id.write(out);
        self.height.write(out);
        proof {
            let r1 = u64::ser(self.height@);
            lemma_concat(old(out)@, Id::ser(self.parent_id@), r1);
        }
    }

    fn read(p: &mut Reader<'_>) -> (r: Result<CommonBlock, CodecError>) {
        proof {
            reveal(common_block_de);
        }
        let parent_id: Id = match Id::read(p) {
            Ok(x) => x,
            Err(e) => {
                return Err(e);
            },
        };
        let height: u64 = match u64::read(p) {
            Ok(x) => x,
            Err(e) => {
                return Err(e);
            },
        };
        Ok(CommonBlock { parent_id, height })
    }
}

/// A block that proposes a transaction, which one of its two options decides.
#[derive(Debug, PartialEq, Eq)]
pub struct ApricotProposalBlock {
    /// The parent and the height.
    pub common: CommonBlock,
    /// The proposed transaction.
    pub tx: Tx,
}

/// What an [`ApricotProposalBlock`] holds.
#[verifier::ext_equal]
pub struct ApricotProposalBlockView {
    /// The parent and the height.
    pub common: CommonBlockView,
    /// The proposed transaction.
    pub tx: TxView,
}

impl View for ApricotProposalBlock {
    type V = ApricotProposalBlockView;

    open spec fn view(&self) -> ApricotProposalBlockView {
        ApricotProposalBlockView {
            common: self.common@,
            tx: self.tx@,
        }
    }
}

impl Dup for ApricotProposalBlock {
    fn dup(&self) -> (r: ApricotProposalBlock) {
        ApricotProposalBlock {
            common: self.common.dup(),
            tx: self.tx.dup(),
        }
    }
}

/// Whether every length of a [`ApricotProposalBlock`] fits its field.
#[verifier::opaque]
pub open spec fn apricot_proposal_block_fits(v: ApricotProposalBlockView) -> bool {
    &&& CommonBlock::fits(v.common)
    &&& Tx::fits(v.tx)
}

/// The fields of a [`ApricotProposalBlock`], in the order in which they are written.
#[verifier::opaque]
pub open spec fn apricot_proposal_block_ser(v: ApricotProposalBlockView) -> Seq<u8> {
    CommonBlock::ser(v.common) + (Tx::ser(v.tx))
}

/// The fields of a [`ApricotProposalBlock`] at the start of `s`, and what follows.
#[verifier::opaque]
pub open spec fn apricot_proposal_block_de(s: Seq<u8>) -> Read<ApricotProposalBlockView> {
    match CommonBlock::de(s) {
        Err(e) => Err(e),
        Ok((common, s)) =>
    match Tx::de(s) {
        Err(e) => Err(e),
        Ok((tx, s)) =>
        Ok((ApricotProposalBlockView { common, tx }, s)),
    },}
}

impl Wire for ApricotProposalBlock {
    open spec fn fits(v: ApricotProposalBlockView) -> bool {
        apricot_proposal_block_fits(v)
    }

    open spec fn ser(v: ApricotProposalBlockView) -> Seq<u8> {
        apricot_proposal_block_ser(v)
    }

    open spec fn de(s: Seq<u8>) -> Read<ApricotProposalBlockView> {
        apricot_proposal_block_de(s)
    }

    proof fn round_trip(v: ApricotProposalBlockView, t: Seq<u8>) {
        reveal(apricot_proposal_block_fits);
        reveal(apricot_proposal_block_ser);
        reveal(apricot_proposal_block_de);
        let r1 = Tx::ser(v.tx);
        Tx::round_trip(v.tx, t);
        lemma_concat(CommonBlock::ser(v.common), r1, t);
        CommonBlock::round_trip(v.common, r1 + t);
    }

    proof fn canonical(s: Seq<u8>) {
        reveal(apricot_proposal_block_fits);
        reveal(apricot_proposal_block_ser);
        reveal(apricot_proposal_block_de);
        if let Ok((v, t)) = Self::de(s) {
            CommonBlock::canonical(s);
            let s1 = (CommonBlock::de(s)->Ok_0).1;
            Tx::canonical(s1);
            let r1 = Tx::ser(v.tx);
            lemma_concat(CommonBlock::ser(v.common), r1, t);
        }
    }

    fn can_write(&self) -> (r: bool) {
        proof {
            reveal(apricot_proposal_block_fits);
        }
        self.common.can_write() && self.tx.can_write()
    }

    fn write(&self, out: &mut Vec<u8>) {
        proof {
            reveal(apricot_proposal_block_fits);
            reveal(apricot_proposal_block_ser);
        }
        self.common.write(out);
        self.tx.write(out);
        proof {
            let r1 = Tx::ser(self.tx@);
            lemma_concat(old(out)@, CommonBlock::ser(self.common@), r1);
        }
    }

    fn read(p: &mut Reader<'_>) -> (r: Result<ApricotProposalBlock, CodecError>) {
        proof {
            reveal(apricot_proposal_block_de);
        }
        let common: CommonBlock = match CommonBlock::read(p) {
            Ok(x) => x,
            Err(e) => {
                return Err(e);
            },
        };
        let tx: Tx = match Tx::read(p) {
            Ok(x) => x,
            Err(e) => {
                return Err(e);
            },
        };
        Ok(ApricotProposalBlock { common, tx })
    }
}

/// The option that aborts a proposal.
#[derive(Debug, PartialEq, Eq)]
pub struct ApricotAbortBlock {
    /// The parent and the height.
    pub common: CommonBlock,
}

/// What an [`ApricotAbortBlock`] holds.
#[verifier::ext_equal]
pub struct ApricotAbortBlockView {
    /// The parent and the height.
    pub common: CommonBlockView,
}

impl View for ApricotAbortBlock {
    type V = ApricotAbortBlockView;

    open spec fn view(&self) -> ApricotAbortBlockView {
        ApricotAbortBlockView {
            common: self.common@,
        }
    }
}

impl Dup for ApricotAbortBlock {
    fn dup(&self) -> (r: ApricotAbortBlock) {
        ApricotAbortBlock {
            common: self.common.dup(),
        }
    }
}

/// Whether every length of a [`ApricotAbortBlock`] fits its field.
#[verifier::opaque]
pub open spec fn apricot_abort_block_fits(v: ApricotAbortBlockView) -> bool {
    &&& CommonBlock::fits(v.common)
}

/// The fields of a [`ApricotAbortBlock`], in the order in which they are written.
#[verifier::opaque]
pub open spec fn apricot_abort_block_ser(v: ApricotAbortBlockView) -> Seq<u8> {
    CommonBlock::ser(v.common)
}

/// The fields of a [`ApricotAbortBlock`] at the start of `s`, and what follows.
#[verifier::opaque]
pub open spec fn apricot_abort_block_de(s: Seq<u8>) -> Read<ApricotAbortBlockView> {
    match CommonBlock::de(s) {
        Err(e) => Err(e),
        Ok((common, s)) =>
        Ok((ApricotAbortBlockView { common }, s)),
    }
}

impl Wire for ApricotAbortBlock {
    open spec fn fits(v: ApricotAbortBlockView) -> bool {
        apricot_abort_block_fits(v)
    }

    open spec fn ser(v: ApricotAbortBlockView) -> Seq<u8> {
        apricot_abort_block_ser(v)
    }

    open spec fn de(s: Seq<u8>) -> Read<ApricotAbortBlockView> {
        apricot_abort_block_de(s)
    }

    proof fn round_trip(v: ApricotAbortBlockView, t: Seq<u8>) {
        reveal(apricot_abort_block_fits);
        reveal(apricot_abort_block_ser);
        reveal(apricot_abort_block_de);
        CommonBlock::round_trip(v.common, t);
    }

    proof fn canonical(s: Seq<u8>) {
        reveal(apricot_abort_block_fits);
        reveal(apricot_abort_block_ser);
        reveal(apricot_abort_block_de);
        if let Ok((v, t)) = Self::de(s) {
            CommonBlock::canonical(s);
        }
    }

    fn can_write(&self) -> (r: bool) {
        proof {
            reveal(apricot_abort_block_fits);
        }
        self.common.can_write()
    }

    fn write(&self, out: &mut Vec<u8>) {
        proof {
            reveal(apricot_abort_block_fits);
            reveal(apricot_abort_block_ser);
        }
        self.common.write(out);
    }

    fn read(p: &mut Reader<'_>) -> (r: Result<ApricotAbortBlock, CodecError>) {
        proof {
            reveal(apricot_abort_block_de);
        }
        let common: CommonBlock = match CommonBlock::read(p) {
            Ok(x) => x,
            Err(e) => {
                return Err(e);
            },
        };
        Ok(ApricotAbortBlock { common })
    }
}

/// The option that commits a proposal.
#[derive(Debug, PartialEq, Eq)]
pub struct ApricotCommitBlock {
    /// The parent and the height.
    pub common: CommonBlock,
}

/// What an [`ApricotCommitBlock`] holds.
#[verifier::ext_equal]
pub struct ApricotCommitBlockView {
    /// The parent and the height.
    pub common: CommonBlockView,
}

impl View for ApricotCommitBlock {
    type V = ApricotCommitBlockView;

    open spec fn view(&self) -> ApricotCommitBlockView {
        ApricotCommitBlockView {
            common: self.common@,
        }
    }
}

impl Dup for ApricotCommitBlock {
    fn dup(&self) -> (r: ApricotCommitBlock) {
        ApricotCommitBlock {
            common: self.common.dup(),
        }
    }
}

/// Whether every length of a [`ApricotCommitBlock`] fits its field.
#[verifier::opaque]
pub open spec fn apricot_commit_block_fits(v: ApricotCommitBlockView) -> bool {
    &&& CommonBlock::fits(v.common)
}

/// The fields of a [`ApricotCommitBlock`], in the order in which they are written.
#[verifier::opaque]
pub open spec fn apricot_commit_block_ser(v: ApricotCommitBlockView) -> Seq<u8> {
    CommonBlock::ser(v.common)
}

/// The fields of a [`ApricotCommitBlock`] at the start of `s`, and what follows.
#[verifier::opaque]
pub open spec fn apricot_commit_block_de(s: Seq<u8>) -> Read<ApricotCommitBlockView> {
    match CommonBlock::de(s) {
        Err(e) => Err(e),
        Ok((common, s)) =>
        Ok((ApricotCommitBlockView { common }, s)),
    }
}

impl Wire for ApricotCommitBlock {
    open spec fn fits(v: ApricotCommitBlockView) -> bool {
        apricot_commit_block_fits(v)
    }

    open spec fn ser(v: ApricotCommitBlockView) -> Seq<u8> {
        apricot_commit_block_ser(v)
    }

    open spec fn de(s: Seq<u8>) -> Read<ApricotCommitBlockView> {
        apricot_commit_block_de(s)
    }

    proof fn round_trip(v: ApricotCommitBlockView, t: Seq<u8>) {
        reveal(apricot_commit_block_fits);
        reveal(apricot_commit_block_ser);
        reveal(apricot_commit_block_de);
        CommonBlock::round_trip(v.common, t);
    }

    proof fn canonical(s: Seq<u8>) {
        reveal(apricot_commit_block_fits);
        reveal(apricot_commit_block_ser);
        reveal(apricot_commit_block_de);
        if let Ok((v, t)) = Self::de(s) {
            CommonBlock::canonical(s);
        }
    }

    fn can_write(&self) -> (r: bool) {
        proof {
            reveal(apricot_commit_block_fits);
        }
        self.common.can_write()
    }

    fn write(&self, out: &mut Vec<u8>) {
        proof {
            reveal(apricot_commit_block_fits);
            reveal(apricot_commit_block_ser);
        }
        self.common.write(out);
    }

    fn read(p: &mut Reader<'_>) -> (r: Result<ApricotCommitBlock, CodecError>) {
        proof {
            reveal(apricot_commit_block_de);
        }
        let common: CommonBlock = match CommonBlock::read(p) {
            Ok(x) => x,
            Err(e) => {
                return Err(e);
            },
        };
        Ok(ApricotCommitBlock { common })
    }
}

/// A block of transactions that are decided at once.
#[derive(Debug, PartialEq, Eq)]
pub struct ApricotStandardBlock {
    /// The parent and the height.
    pub common: CommonBlock,
    /// The transactions.
    pub transactions: List<Tx>,
}

/// What an [`ApricotStandardBlock`] holds.
#[verifier::ext_equal]
pub struct ApricotStandardBlockView {
    /// The parent and the height.
    pub common: CommonBlockView,
    /// The transactions.
    pub transactions: Seq<TxView>,
}

impl View for ApricotStandardBlock {
    type V = ApricotStandardBlockView;

    open spec fn view(&self) -> ApricotStandardBlockView {
        ApricotStandardBlockView {
            common: self.common@,
            transactions: self.transactions@,
        }
    }
}

impl Dup for ApricotStandardBlock {
    fn dup(&self) -> (r: ApricotStandardBlock) {
        ApricotStandardBlock {
            common: self.common.dup(),
            transactions: self.transactions.dup(),
        }
    }
}

/// Whether every length of a [`ApricotStandardBlock`] fits its field.
#[verifier::opaque]
pub open spec fn apricot_standard_block_fits(v: ApricotStandardBlockView) -> bool {
    &&& CommonBlock::fits(v.common)
    &&& List::<Tx>::fits(v.transactions)
}

/// The fields of a [`ApricotStandardBlock`], in the order in which they are written.
#[verifier::opaque]
pub open spec fn apricot_standard_block_ser(v: ApricotStandardBlockView) -> Seq<u8> {
    CommonBlock::ser(v.common) + (List::<Tx>::ser(v.transactions))
}

/// The fields of a [`ApricotStandardBlock`] at the start of `s`, and what follows.
#[verifier::opaque]
pub open spec fn apricot_standard_block_de(s: Seq<u8>) -> Read<ApricotStandardBlockView> {
    match CommonBlock::de(s) {
        Err(e) => Err(e),
        Ok((common, s)) =>
    match List::<Tx>::de(s) {
        Err(e) => Err(e),
        Ok((transactions, s)) =>
        Ok((ApricotStandardBlockView { common, transactions }, s)),
    },}
}

impl Wire for ApricotStandardBlock {
    open spec fn fits(v: ApricotStandardBlockView) -> bool {
        apricot_standard_block_fits(v)
    }

    open spec fn ser(v: ApricotStandardBlockView) -> Seq<u8> {
        apricot_standard_block_ser(v)
    }

    open spec fn de(s: Seq<u8>) -> Read<ApricotStandardBlockView> {
        apricot_standard_block_de(s)
    }

    proof fn round_trip(v: ApricotStandardBlockView, t: Seq<u8>) {
        reveal(apricot_standard_block_fits);
        reveal(apricot_standard_block_ser);
        reveal(apricot_standard_block_de);
        let r1 = List::<Tx>::ser(v.transactions);
        List::<Tx>::round_trip(v.transactions, t);
        lemma_concat(CommonBlock::ser(v.common), r1, t);
        CommonBlock::round_trip(v.common, r1 + t);
    }

    proof fn canonical(s: Seq<u8>) {
        reveal(apricot_standard_block_fits);
        reveal(apricot_standard_block_ser);
        reveal(apricot_standard_block_de);
        if let Ok((v, t)) = Self::de(s) {
            CommonBlock::canonical(s);
            let s1 = (CommonBlock::de(s)->Ok_0).1;
            List::<Tx>::canonical(s1);
            let r1 = List::<Tx>::ser(v.transactions);
            lemma_concat(CommonBlock::ser(v.common), r1, t);
        }
    }

    fn can_write(&self) -> (r: bool) {
        proof {
            reveal(apricot_standard_block_fits);
        }
        self.common.can_write() && self.transactions.can_write()
    }

    fn write(&self, out: &mut Vec<u8>) {
        proof {
            reveal(apricot_standard_block_fits);
            reveal(apricot_standard_block_ser);
        }
        self.common.write(out);
        self.transactions.write(out);
        proof {
            let r1 = List::<Tx>::ser(self.transactions@);
            lemma_concat(old(out)@, CommonBlock::ser(self.common@), r1);
        }
    }

    fn read(p: &mut Reader<'_>) -> (r: Result<ApricotStandardBlock, CodecError>) {
        proof {
            reveal(apricot_standard_block_de);
        }
        let common: CommonBlock = match CommonBlock::read(p) {
            Ok(x) => x,
            Err(e) => {
                return Err(e);
            },
        };
        let transactions: List<Tx> = match List::<Tx>::read(p) {
            Ok(x) => x,
            Err(e) => {
                return Err(e);
            },
        };
        Ok(ApricotStandardBlock { common, transactions })
    }
}

/// A block of one transaction that moves value between chains.
#[derive(Debug, PartialEq, Eq)]
pub struct ApricotAtomicBlock {
    /// The parent and the height.
    pub common: CommonBlock,
    /// The transaction.
    pub tx: Tx,
}

/// What an [`ApricotAtomicBlock`] holds.
#[verifier::ext_equal]
pub struct ApricotAtomicBlockView {
    /// The parent and the height.
    pub common: CommonBlockView,
    /// The transaction.
    pub tx: TxView,
}

impl View for ApricotAtomicBlock {
    type V = ApricotAtomicBlockView;

    open spec fn view(&self) -> ApricotAtomicBlockView {
        ApricotAtomicBlockView {
            common: self.common@,
            tx: self.tx@,
        }
    }
}

impl Dup for ApricotAtomicBlock {
    fn dup(&self) -> (r: ApricotAtomicBlock) {
        ApricotAtomicBlock {
            common: self.common.dup(),
            tx: self.tx.dup(),
        }
    }
}

/// Whether every length of a [`ApricotAtomicBlock`] fits its field.
#[verifier::opaque]
pub open spec fn apricot_atomic_block_fits(v: ApricotAtomicBlockView) -> bool {
    &&& CommonBlock::fits(v.common)
    &&& Tx::fits(v.tx)
}

/// The fields of a [`ApricotAtomicBlock`], in the order in which they are written.
#[verifier::opaque]
pub open spec fn apricot_atomic_block_ser(v: ApricotAtomicBlockView) -> Seq<u8> {
    CommonBlock::ser(v.common) + (Tx::ser(v.tx))
}

/// The fields of a [`ApricotAtomicBlock`] at the start of `s`, and what follows.
#[verifier::opaque]
pub open spec fn apricot_atomic_block_de(s: Seq<u8>) -> Read<ApricotAtomicBlockView> {
    match CommonBlock::de(s) {
        Err(e) => Err(e),
        Ok((common, s)) =>
    match Tx::de(s) {
        Err(e) => Err(e),
        Ok((tx, s)) =>
        Ok((ApricotAtomicBlockView { common, tx }, s)),
    },}
}

impl Wire for ApricotAtomicBlock {
    open spec fn fits(v: ApricotAtomicBlockView) -> bool {
        apricot_atomic_block_fits(v)
    }

    open spec fn ser(v: ApricotAtomicBlockView) -> Seq<u8> {
        apricot_atomic_block_ser(v)
    }

    open spec fn de(s: Seq<u8>) -> Read<ApricotAtomicBlockView> {
        apricot_atomic_block_de(s)
    }

    proof fn round_trip(v: ApricotAtomicBlockView, t: Seq<u8>) {
        reveal(apricot_atomic_block_fits);
        reveal(apricot_atomic_block_ser);
        reveal(apricot_atomic_block_de);
        let r1 = Tx::ser(v.tx);
        Tx::round_trip(v.tx, t);
        lemma_concat(CommonBlock::ser(v.common), r1, t);
        CommonBlock::round_trip(v.common, r1 + t);
    }

    proof fn canonical(s: Seq<u8>) {
        reveal(apricot_atomic_block_fits);
        reveal(apricot_atomic_block_ser);
        reveal(apricot_atomic_block_de);
        if let Ok((v, t)) = Self::de(s) {
            CommonBlock::canonical(s);
            let s1 = (CommonBlock::de(s)->Ok_0).1;
            Tx::canonical(s1);
            let r1 = Tx::ser(v.tx);
            lemma_concat(CommonBlock::ser(v.common), r1, t);
        }
    }

    fn can_write(&self) -> (r: bool) {
        proof {
            reveal(apricot_atomic_block_fits);
        }
        self.common.can_write() && self.tx.can_write()
    }

    fn write(&self, out: &mut Vec<u8>) {
        proof {
            reveal(apricot_atomic_block_fits);
            reveal(apricot_atomic_block_ser);
        }
        self.common.write(out);
        self.tx.write(out);
        proof {
            let r1 = Tx::ser(self.tx@);
            lemma_concat(old(out)@, CommonBlock::ser(self.common@), r1);
        }
    }

    fn read(p: &mut Reader<'_>) -> (r: Result<ApricotAtomicBlock, CodecError>) {
        proof {
            reveal(apricot_atomic_block_de);
        }
        let common: CommonBlock = match CommonBlock::read(p) {
            Ok(x) => x,
            Err(e) => {
                return Err(e);
            },
        };
        let tx: Tx = match Tx::read(p) {
            Ok(x) => x,
            Err(e) => {
                return Err(e);
            },
        };
        Ok(ApricotAtomicBlock { common, tx })
    }
}

} // verus!
