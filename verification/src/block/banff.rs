//! Block bodies with a time. What the bodies without one hold follows it.
use vstd::prelude::*;

use crate::block::apricot::{ApricotAbortBlock, ApricotAbortBlockView, ApricotCommitBlock, ApricotCommitBlockView, ApricotProposalBlock, ApricotProposalBlockView, ApricotStandardBlock, ApricotStandardBlockView};
use crate::codec::{lemma_concat, CodecError, Reader};
use crate::collections::ordmap::Dup;
use crate::txs::tx::{Tx, TxView};
use crate::wire::{List, Read, Wire};

verus! {

/// A timed block that proposes a transaction.
#[derive(Debug, PartialEq, Eq)]
pub struct BanffProposalBlock {
    /// The time of the block, in Unix seconds.
    pub time: u64,
    /// The transactions that are decided at once.
    pub transactions: List<Tx>,
    /// The parent, the height and the proposal.
    pub apricot: ApricotProposalBlock,
}

/// What a [`BanffProposalBlock`] holds.
#[verifier::ext_equal]
pub struct BanffProposalBlockView {
    /// The time of the block, in Unix seconds.
    pub time: u64,
    /// The transactions that are decided at once.
    pub transactions: Seq<TxView>,
    /// The parent, the height and the proposal.
    pub apricot: ApricotProposalBlockView,
}

impl View for BanffProposalBlock {
    type V = BanffProposalBlockView;

    open spec fn view(&self) -> BanffProposalBlockView {
        BanffProposalBlockView {
            time: self.time@,
            transactions: self.transactions@,
            apricot: self.apricot@,
        }
    }
}

impl Dup for BanffProposalBlock {
    fn dup(&self) -> (r: BanffProposalBlock) {
        BanffProposalBlock {
            time: self.time.dup(),
            transactions: self.transactions.dup(),
            apricot: self.apricot.dup(),
        }
    }
}

/// Whether every length of a [`BanffProposalBlock`] fits its field.
#[verifier::opaque]
pub open spec fn banff_proposal_block_fits(v: BanffProposalBlockView) -> bool {
    &&& u64::fits(v.time)
    &&& List::<Tx>::fits(v.transactions)
    &&& ApricotProposalBlock::fits(v.apricot)
}

/// The fields of a [`BanffProposalBlock`], in the order in which they are written.
#[verifier::opaque]
pub open spec fn banff_proposal_block_ser(v: BanffProposalBlockView) -> Seq<u8> {
    u64::ser(v.time) + (List::<Tx>::ser(v.transactions) + (ApricotProposalBlock::ser(v.apricot)))
}

/// The fields of a [`BanffProposalBlock`] at the start of `s`, and what follows.
#[verifier::opaque]
pub open spec fn banff_proposal_block_de(s: Seq<u8>) -> Read<BanffProposalBlockView> {
    match u64::de(s) {
        Err(e) => Err(e),
        Ok((time, s)) =>
    match List::<Tx>::de(s) {
        Err(e) => Err(e),
        Ok((transactions, s)) =>
    match ApricotProposalBlock::de(s) {
        Err(e) => Err(e),
        Ok((apricot, s)) =>
        Ok((BanffProposalBlockView { time, transactions, apricot }, s)),
    },},}
}

impl Wire for BanffProposalBlock {
    open spec fn fits(v: BanffProposalBlockView) -> bool {
        banff_proposal_block_fits(v)
    }

    open spec fn ser(v: BanffProposalBlockView) -> Seq<u8> {
        banff_proposal_block_ser(v)
    }

    open spec fn de(s: Seq<u8>) -> Read<BanffProposalBlockView> {
        banff_proposal_block_de(s)
    }

    proof fn round_trip(v: BanffProposalBlockView, t: Seq<u8>) {
        reveal(banff_proposal_block_fits);
        reveal(banff_proposal_block_ser);
        reveal(banff_proposal_block_de);
        let r2 = ApricotProposalBlock::ser(v.apricot);
        ApricotProposalBlock::round_trip(v.apricot, t);
        lemma_concat(List::<Tx>::ser(v.transactions), r2, t);
        List::<Tx>::round_trip(v.transactions, r2 + t);
        let r1 = List::<Tx>::ser(v.transactions) + r2;
        lemma_concat(u64::ser(v.time), r1, t);
        u64::round_trip(v.time, r1 + t);
    }

    proof fn canonical(s: Seq<u8>) {
        reveal(banff_proposal_block_fits);
        reveal(banff_proposal_block_ser);
        reveal(banff_proposal_block_de);
        if let Ok((v, t)) = Self::de(s) {
            u64::canonical(s);
            let s1 = (u64::de(s)->Ok_0).1;
            List::<Tx>::canonical(s1);
            let s2 = (List::<Tx>::de(s1)->Ok_0).1;
            ApricotProposalBlock::canonical(s2);
            let r2 = ApricotProposalBlock::ser(v.apricot);
            lemma_concat(List::<Tx>::ser(v.transactions), r2, t);
            let r1 = List::<Tx>::ser(v.transactions) + r2;
            lemma_concat(u64::ser(v.time), r1, t);
        }
    }

    fn can_write(&self) -> (r: bool) {
        proof {
            reveal(banff_proposal_block_fits);
        }
        self.time.can_write() && self.transactions.can_write() && self.apricot.can_write()
    }

    fn write(&self, out: &mut Vec<u8>) {
        proof {
            reveal(banff_proposal_block_fits);
            reveal(banff_proposal_block_ser);
        }
        self.time.write(out);
        self.transactions.write(out);
        self.apricot.write(out);
        proof {
            let r2 = ApricotProposalBlock::ser(self.apricot@);
            lemma_concat((old(out)@ + u64::ser(self.time@)), List::<Tx>::ser(self.transactions@), r2);
            let r1 = List::<Tx>::ser(self.transactions@) + r2;
            lemma_concat(old(out)@, u64::ser(self.time@), r1);
        }
    }

    fn read(p: &mut Reader<'_>) -> (r: Result<BanffProposalBlock, CodecError>) {
        proof {
            reveal(banff_proposal_block_de);
        }
        let time: u64 = match u64::read(p) {
            Ok(x) => x,
            Err(e) => {
                return Err(e);
            },
        };
        let transactions: List<Tx> = match List::<Tx>::read(p) {
            Ok(x) => x,
            Err(e) => {
                return Err(e);
            },
        };
        let apricot: ApricotProposalBlock = match ApricotProposalBlock::read(p) {
            Ok(x) => x,
            Err(e) => {
                return Err(e);
            },
        };
        Ok(BanffProposalBlock { time, transactions, apricot })
    }
}

/// The timed option that aborts a proposal.
#[derive(Debug, PartialEq, Eq)]
pub struct BanffAbortBlock {
    /// The time of the block, in Unix seconds.
    pub time: u64,
    /// What the body without a time holds.
    pub apricot: ApricotAbortBlock,
}

/// What a [`BanffAbortBlock`] holds.
#[verifier::ext_equal]
pub struct BanffAbortBlockView {
    /// The time of the block, in Unix seconds.
    pub time: u64,
    /// What the body without a time holds.
    pub apricot: ApricotAbortBlockView,
}

impl View for BanffAbortBlock {
    type V = BanffAbortBlockView;

    open spec fn view(&self) -> BanffAbortBlockView {
        BanffAbortBlockView {
            time: self.time@,
            apricot: self.apricot@,
        }
    }
}

impl Dup for BanffAbortBlock {
    fn dup(&self) -> (r: BanffAbortBlock) {
        BanffAbortBlock {
            time: self.time.dup(),
            apricot: self.apricot.dup(),
        }
    }
}

/// Whether every length of a [`BanffAbortBlock`] fits its field.
#[verifier::opaque]
pub open spec fn banff_abort_block_fits(v: BanffAbortBlockView) -> bool {
    &&& u64::fits(v.time)
    &&& ApricotAbortBlock::fits(v.apricot)
}

/// The fields of a [`BanffAbortBlock`], in the order in which they are written.
#[verifier::opaque]
pub open spec fn banff_abort_block_ser(v: BanffAbortBlockView) -> Seq<u8> {
    u64::ser(v.time) + (ApricotAbortBlock::ser(v.apricot))
}

/// The fields of a [`BanffAbortBlock`] at the start of `s`, and what follows.
#[verifier::opaque]
pub open spec fn banff_abort_block_de(s: Seq<u8>) -> Read<BanffAbortBlockView> {
    match u64::de(s) {
        Err(e) => Err(e),
        Ok((time, s)) =>
    match ApricotAbortBlock::de(s) {
        Err(e) => Err(e),
        Ok((apricot, s)) =>
        Ok((BanffAbortBlockView { time, apricot }, s)),
    },}
}

impl Wire for BanffAbortBlock {
    open spec fn fits(v: BanffAbortBlockView) -> bool {
        banff_abort_block_fits(v)
    }

    open spec fn ser(v: BanffAbortBlockView) -> Seq<u8> {
        banff_abort_block_ser(v)
    }

    open spec fn de(s: Seq<u8>) -> Read<BanffAbortBlockView> {
        banff_abort_block_de(s)
    }

    proof fn round_trip(v: BanffAbortBlockView, t: Seq<u8>) {
        reveal(banff_abort_block_fits);
        reveal(banff_abort_block_ser);
        reveal(banff_abort_block_de);
        let r1 = ApricotAbortBlock::ser(v.apricot);
        ApricotAbortBlock::round_trip(v.apricot, t);
        lemma_concat(u64::ser(v.time), r1, t);
        u64::round_trip(v.time, r1 + t);
    }

    proof fn canonical(s: Seq<u8>) {
        reveal(banff_abort_block_fits);
        reveal(banff_abort_block_ser);
        reveal(banff_abort_block_de);
        if let Ok((v, t)) = Self::de(s) {
            u64::canonical(s);
            let s1 = (u64::de(s)->Ok_0).1;
            ApricotAbortBlock::canonical(s1);
            let r1 = ApricotAbortBlock::ser(v.apricot);
            lemma_concat(u64::ser(v.time), r1, t);
        }
    }

    fn can_write(&self) -> (r: bool) {
        proof {
            reveal(banff_abort_block_fits);
        }
        self.time.can_write() && self.apricot.can_write()
    }

    fn write(&self, out: &mut Vec<u8>) {
        proof {
            reveal(banff_abort_block_fits);
            reveal(banff_abort_block_ser);
        }
        self.time.write(out);
        self.apricot.write(out);
        proof {
            let r1 = ApricotAbortBlock::ser(self.apricot@);
            lemma_concat(old(out)@, u64::ser(self.time@), r1);
        }
    }

    fn read(p: &mut Reader<'_>) -> (r: Result<BanffAbortBlock, CodecError>) {
        proof {
            reveal(banff_abort_block_de);
        }
        let time: u64 = match u64::read(p) {
            Ok(x) => x,
            Err(e) => {
                return Err(e);
            },
        };
        let apricot: ApricotAbortBlock = match ApricotAbortBlock::read(p) {
            Ok(x) => x,
            Err(e) => {
                return Err(e);
            },
        };
        Ok(BanffAbortBlock { time, apricot })
    }
}

/// The timed option that commits a proposal.
#[derive(Debug, PartialEq, Eq)]
pub struct BanffCommitBlock {
    /// The time of the block, in Unix seconds.
    pub time: u64,
    /// What the body without a time holds.
    pub apricot: ApricotCommitBlock,
}

/// What a [`BanffCommitBlock`] holds.
#[verifier::ext_equal]
pub struct BanffCommitBlockView {
    /// The time of the block, in Unix seconds.
    pub time: u64,
    /// What the body without a time holds.
    pub apricot: ApricotCommitBlockView,
}

impl View for BanffCommitBlock {
    type V = BanffCommitBlockView;

    open spec fn view(&self) -> BanffCommitBlockView {
        BanffCommitBlockView {
            time: self.time@,
            apricot: self.apricot@,
        }
    }
}

impl Dup for BanffCommitBlock {
    fn dup(&self) -> (r: BanffCommitBlock) {
        BanffCommitBlock {
            time: self.time.dup(),
            apricot: self.apricot.dup(),
        }
    }
}

/// Whether every length of a [`BanffCommitBlock`] fits its field.
#[verifier::opaque]
pub open spec fn banff_commit_block_fits(v: BanffCommitBlockView) -> bool {
    &&& u64::fits(v.time)
    &&& ApricotCommitBlock::fits(v.apricot)
}

/// The fields of a [`BanffCommitBlock`], in the order in which they are written.
#[verifier::opaque]
pub open spec fn banff_commit_block_ser(v: BanffCommitBlockView) -> Seq<u8> {
    u64::ser(v.time) + (ApricotCommitBlock::ser(v.apricot))
}

/// The fields of a [`BanffCommitBlock`] at the start of `s`, and what follows.
#[verifier::opaque]
pub open spec fn banff_commit_block_de(s: Seq<u8>) -> Read<BanffCommitBlockView> {
    match u64::de(s) {
        Err(e) => Err(e),
        Ok((time, s)) =>
    match ApricotCommitBlock::de(s) {
        Err(e) => Err(e),
        Ok((apricot, s)) =>
        Ok((BanffCommitBlockView { time, apricot }, s)),
    },}
}

impl Wire for BanffCommitBlock {
    open spec fn fits(v: BanffCommitBlockView) -> bool {
        banff_commit_block_fits(v)
    }

    open spec fn ser(v: BanffCommitBlockView) -> Seq<u8> {
        banff_commit_block_ser(v)
    }

    open spec fn de(s: Seq<u8>) -> Read<BanffCommitBlockView> {
        banff_commit_block_de(s)
    }

    proof fn round_trip(v: BanffCommitBlockView, t: Seq<u8>) {
        reveal(banff_commit_block_fits);
        reveal(banff_commit_block_ser);
        reveal(banff_commit_block_de);
        let r1 = ApricotCommitBlock::ser(v.apricot);
        ApricotCommitBlock::round_trip(v.apricot, t);
        lemma_concat(u64::ser(v.time), r1, t);
        u64::round_trip(v.time, r1 + t);
    }

    proof fn canonical(s: Seq<u8>) {
        reveal(banff_commit_block_fits);
        reveal(banff_commit_block_ser);
        reveal(banff_commit_block_de);
        if let Ok((v, t)) = Self::de(s) {
            u64::canonical(s);
            let s1 = (u64::de(s)->Ok_0).1;
            ApricotCommitBlock::canonical(s1);
            let r1 = ApricotCommitBlock::ser(v.apricot);
            lemma_concat(u64::ser(v.time), r1, t);
        }
    }

    fn can_write(&self) -> (r: bool) {
        proof {
            reveal(banff_commit_block_fits);
        }
        self.time.can_write() && self.apricot.can_write()
    }

    fn write(&self, out: &mut Vec<u8>) {
        proof {
            reveal(banff_commit_block_fits);
            reveal(banff_commit_block_ser);
        }
        self.time.write(out);
        self.apricot.write(out);
        proof {
            let r1 = ApricotCommitBlock::ser(self.apricot@);
            lemma_concat(old(out)@, u64::ser(self.time@), r1);
        }
    }

    fn read(p: &mut Reader<'_>) -> (r: Result<BanffCommitBlock, CodecError>) {
        proof {
            reveal(banff_commit_block_de);
        }
        let time: u64 = match u64::read(p) {
            Ok(x) => x,
            Err(e) => {
                return Err(e);
            },
        };
        let apricot: ApricotCommitBlock = match ApricotCommitBlock::read(p) {
            Ok(x) => x,
            Err(e) => {
                return Err(e);
            },
        };
        Ok(BanffCommitBlock { time, apricot })
    }
}

/// A timed block of transactions that are decided at once.
#[derive(Debug, PartialEq, Eq)]
pub struct BanffStandardBlock {
    /// The time of the block, in Unix seconds.
    pub time: u64,
    /// What the body without a time holds.
    pub apricot: ApricotStandardBlock,
}

/// What a [`BanffStandardBlock`] holds.
#[verifier::ext_equal]
pub struct BanffStandardBlockView {
    /// The time of the block, in Unix seconds.
    pub time: u64,
    /// What the body without a time holds.
    pub apricot: ApricotStandardBlockView,
}

impl View for BanffStandardBlock {
    type V = BanffStandardBlockView;

    open spec fn view(&self) -> BanffStandardBlockView {
        BanffStandardBlockView {
            time: self.time@,
            apricot: self.apricot@,
        }
    }
}

impl Dup for BanffStandardBlock {
    fn dup(&self) -> (r: BanffStandardBlock) {
        BanffStandardBlock {
            time: self.time.dup(),
            apricot: self.apricot.dup(),
        }
    }
}

/// Whether every length of a [`BanffStandardBlock`] fits its field.
#[verifier::opaque]
pub open spec fn banff_standard_block_fits(v: BanffStandardBlockView) -> bool {
    &&& u64::fits(v.time)
    &&& ApricotStandardBlock::fits(v.apricot)
}

/// The fields of a [`BanffStandardBlock`], in the order in which they are written.
#[verifier::opaque]
pub open spec fn banff_standard_block_ser(v: BanffStandardBlockView) -> Seq<u8> {
    u64::ser(v.time) + (ApricotStandardBlock::ser(v.apricot))
}

/// The fields of a [`BanffStandardBlock`] at the start of `s`, and what follows.
#[verifier::opaque]
pub open spec fn banff_standard_block_de(s: Seq<u8>) -> Read<BanffStandardBlockView> {
    match u64::de(s) {
        Err(e) => Err(e),
        Ok((time, s)) =>
    match ApricotStandardBlock::de(s) {
        Err(e) => Err(e),
        Ok((apricot, s)) =>
        Ok((BanffStandardBlockView { time, apricot }, s)),
    },}
}

impl Wire for BanffStandardBlock {
    open spec fn fits(v: BanffStandardBlockView) -> bool {
        banff_standard_block_fits(v)
    }

    open spec fn ser(v: BanffStandardBlockView) -> Seq<u8> {
        banff_standard_block_ser(v)
    }

    open spec fn de(s: Seq<u8>) -> Read<BanffStandardBlockView> {
        banff_standard_block_de(s)
    }

    proof fn round_trip(v: BanffStandardBlockView, t: Seq<u8>) {
        reveal(banff_standard_block_fits);
        reveal(banff_standard_block_ser);
        reveal(banff_standard_block_de);
        let r1 = ApricotStandardBlock::ser(v.apricot);
        ApricotStandardBlock::round_trip(v.apricot, t);
        lemma_concat(u64::ser(v.time), r1, t);
        u64::round_trip(v.time, r1 + t);
    }

    proof fn canonical(s: Seq<u8>) {
        reveal(banff_standard_block_fits);
        reveal(banff_standard_block_ser);
        reveal(banff_standard_block_de);
        if let Ok((v, t)) = Self::de(s) {
            u64::canonical(s);
            let s1 = (u64::de(s)->Ok_0).1;
            ApricotStandardBlock::canonical(s1);
            let r1 = ApricotStandardBlock::ser(v.apricot);
            lemma_concat(u64::ser(v.time), r1, t);
        }
    }

    fn can_write(&self) -> (r: bool) {
        proof {
            reveal(banff_standard_block_fits);
        }
        self.time.can_write() && self.apricot.can_write()
    }

    fn write(&self, out: &mut Vec<u8>) {
        proof {
            reveal(banff_standard_block_fits);
            reveal(banff_standard_block_ser);
        }
        self.time.write(out);
        self.apricot.write(out);
        proof {
            let r1 = ApricotStandardBlock::ser(self.apricot@);
            lemma_concat(old(out)@, u64::ser(self.time@), r1);
        }
    }

    fn read(p: &mut Reader<'_>) -> (r: Result<BanffStandardBlock, CodecError>) {
        proof {
            reveal(banff_standard_block_de);
        }
        let time: u64 = match u64::read(p) {
            Ok(x) => x,
            Err(e) => {
                return Err(e);
            },
        };
        let apricot: ApricotStandardBlock = match ApricotStandardBlock::read(p) {
            Ok(x) => x,
            Err(e) => {
                return Err(e);
            },
        };
        Ok(BanffStandardBlock { time, apricot })
    }
}

} // verus!
