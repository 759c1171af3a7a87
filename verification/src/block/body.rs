//! The bodies of blocks.
use vstd::prelude::*;

use crate::block::apricot::{ApricotAbortBlock, ApricotAbortBlockView, ApricotAtomicBlock, ApricotAtomicBlockView, ApricotCommitBlock, ApricotCommitBlockView, ApricotProposalBlock, ApricotProposalBlockView, ApricotStandardBlock, ApricotStandardBlockView, CommonBlock, CommonBlockView};
use crate::block::banff::{BanffAbortBlock, BanffAbortBlockView, BanffCommitBlock, BanffCommitBlockView, BanffProposalBlock, BanffProposalBlockView, BanffStandardBlock, BanffStandardBlockView};
use crate::codec::{be, lemma_concat, lemma_pow256, lemma_rd_be, lemma_rd_be_sound, push_u32, rd_be, CodecError, Reader};
use crate::collections::ordmap::Dup;
use crate::txs::tx::Tx;
use crate::wire::{Read, Wire};

verus! {

/// What a block holds, as it is written.
#[derive(Debug, PartialEq, Eq)]
pub enum BlockBody {
    /// A proposal.
    ApricotProposal(ApricotProposalBlock),
    /// An aborting option.
    ApricotAbort(ApricotAbortBlock),
    /// A committing option.
    ApricotCommit(ApricotCommitBlock),
    /// Decided transactions.
    ApricotStandard(ApricotStandardBlock),
    /// A transaction between chains.
    ApricotAtomic(ApricotAtomicBlock),
    /// A timed proposal.
    BanffProposal(BanffProposalBlock),
    /// A timed aborting option.
    BanffAbort(BanffAbortBlock),
    /// A timed committing option.
    BanffCommit(BanffCommitBlock),
    /// Timed decided transactions.
    BanffStandard(BanffStandardBlock),
}

/// What a [`BlockBody`] holds.
#[verifier::ext_equal]
pub enum BlockBodyView {
    /// A proposal.
    ApricotProposal(ApricotProposalBlockView),
    /// An aborting option.
    ApricotAbort(ApricotAbortBlockView),
    /// A committing option.
    ApricotCommit(ApricotCommitBlockView),
    /// Decided transactions.
    ApricotStandard(ApricotStandardBlockView),
    /// A transaction between chains.
    ApricotAtomic(ApricotAtomicBlockView),
    /// A timed proposal.
    BanffProposal(BanffProposalBlockView),
    /// A timed aborting option.
    BanffAbort(BanffAbortBlockView),
    /// A timed committing option.
    BanffCommit(BanffCommitBlockView),
    /// Timed decided transactions.
    BanffStandard(BanffStandardBlockView),
}

impl View for BlockBody {
    type V = BlockBodyView;

    open spec fn view(&self) -> BlockBodyView {
        match self {
            BlockBody::ApricotProposal(x) => BlockBodyView::ApricotProposal(x@),
            BlockBody::ApricotAbort(x) => BlockBodyView::ApricotAbort(x@),
            BlockBody::ApricotCommit(x) => BlockBodyView::ApricotCommit(x@),
            BlockBody::ApricotStandard(x) => BlockBodyView::ApricotStandard(x@),
            BlockBody::ApricotAtomic(x) => BlockBodyView::ApricotAtomic(x@),
            BlockBody::BanffProposal(x) => BlockBodyView::BanffProposal(x@),
            BlockBody::BanffAbort(x) => BlockBodyView::BanffAbort(x@),
            BlockBody::BanffCommit(x) => BlockBodyView::BanffCommit(x@),
            BlockBody::BanffStandard(x) => BlockBodyView::BanffStandard(x@),
        }
    }
}

impl Dup for BlockBody {
    fn dup(&self) -> (r: BlockBody) {
        match self {
            BlockBody::ApricotProposal(x) => BlockBody::ApricotProposal(x.dup()),
            BlockBody::ApricotAbort(x) => BlockBody::ApricotAbort(x.dup()),
            BlockBody::ApricotCommit(x) => BlockBody::ApricotCommit(x.dup()),
            BlockBody::ApricotStandard(x) => BlockBody::ApricotStandard(x.dup()),
            BlockBody::ApricotAtomic(x) => BlockBody::ApricotAtomic(x.dup()),
            BlockBody::BanffProposal(x) => BlockBody::BanffProposal(x.dup()),
            BlockBody::BanffAbort(x) => BlockBody::BanffAbort(x.dup()),
            BlockBody::BanffCommit(x) => BlockBody::BanffCommit(x.dup()),
            BlockBody::BanffStandard(x) => BlockBody::BanffStandard(x.dup()),
        }
    }
}

impl BlockBodyView {
    /// The type id in front of the value.
    pub open spec fn type_id(self) -> u32 {
        match self {
            BlockBodyView::ApricotProposal(_) => 0,
            BlockBodyView::ApricotAbort(_) => 1,
            BlockBodyView::ApricotCommit(_) => 2,
            BlockBodyView::ApricotStandard(_) => 3,
            BlockBodyView::ApricotAtomic(_) => 4,
            BlockBodyView::BanffProposal(_) => 29,
            BlockBodyView::BanffAbort(_) => 30,
            BlockBodyView::BanffCommit(_) => 31,
            BlockBodyView::BanffStandard(_) => 32,
        }
    }
}

impl BlockBody {
    /// The type id in front of the value.
    pub fn codec_type_id(&self) -> (r: u32)
        ensures
            r == self@.type_id(),
    {
        match self {
            BlockBody::ApricotProposal(_) => 0,
            BlockBody::ApricotAbort(_) => 1,
            BlockBody::ApricotCommit(_) => 2,
            BlockBody::ApricotStandard(_) => 3,
            BlockBody::ApricotAtomic(_) => 4,
            BlockBody::BanffProposal(_) => 29,
            BlockBody::BanffAbort(_) => 30,
            BlockBody::BanffCommit(_) => 31,
            BlockBody::BanffStandard(_) => 32,
        }
    }
}

/// Whether every length of the value fits its field.
#[verifier::opaque]
pub open spec fn block_body_fits(v: BlockBodyView) -> bool {
    match v {
        BlockBodyView::ApricotProposal(x) => ApricotProposalBlock::fits(x),
        BlockBodyView::ApricotAbort(x) => ApricotAbortBlock::fits(x),
        BlockBodyView::ApricotCommit(x) => ApricotCommitBlock::fits(x),
        BlockBodyView::ApricotStandard(x) => ApricotStandardBlock::fits(x),
        BlockBodyView::ApricotAtomic(x) => ApricotAtomicBlock::fits(x),
        BlockBodyView::BanffProposal(x) => BanffProposalBlock::fits(x),
        BlockBodyView::BanffAbort(x) => BanffAbortBlock::fits(x),
        BlockBodyView::BanffCommit(x) => BanffCommitBlock::fits(x),
        BlockBodyView::BanffStandard(x) => BanffStandardBlock::fits(x),
    }
}

/// The type id, and the value that it is the type of.
#[verifier::opaque]
pub open spec fn block_body_ser(v: BlockBodyView) -> Seq<u8> {
    be(v.type_id() as nat, 4) + match v {
        BlockBodyView::ApricotProposal(x) => ApricotProposalBlock::ser(x),
        BlockBodyView::ApricotAbort(x) => ApricotAbortBlock::ser(x),
        BlockBodyView::ApricotCommit(x) => ApricotCommitBlock::ser(x),
        BlockBodyView::ApricotStandard(x) => ApricotStandardBlock::ser(x),
        BlockBodyView::ApricotAtomic(x) => ApricotAtomicBlock::ser(x),
        BlockBodyView::BanffProposal(x) => BanffProposalBlock::ser(x),
        BlockBodyView::BanffAbort(x) => BanffAbortBlock::ser(x),
        BlockBodyView::BanffCommit(x) => BanffCommitBlock::ser(x),
        BlockBodyView::BanffStandard(x) => BanffStandardBlock::ser(x),
    }
}

/// The value at the start of `s`, and what follows.
#[verifier::opaque]
pub open spec fn block_body_de(s: Seq<u8>) -> Read<BlockBodyView> {
    match rd_be(s, 4) {
        None => Err(CodecError::InsufficientLength),
        Some((id, s)) => 
        if id == 0 {
            match ApricotProposalBlock::de(s) {
                Err(e) => Err(e),
                Ok((x, t)) => Ok((BlockBodyView::ApricotProposal(x), t)),
            }
        } else 
        if id == 1 {
            match ApricotAbortBlock::de(s) {
                Err(e) => Err(e),
                Ok((x, t)) => Ok((BlockBodyView::ApricotAbort(x), t)),
            }
        } else 
        if id == 2 {
            match ApricotCommitBlock::de(s) {
                Err(e) => Err(e),
                Ok((x, t)) => Ok((BlockBodyView::ApricotCommit(x), t)),
            }
        } else 
        if id == 3 {
            match ApricotStandardBlock::de(s) {
                Err(e) => Err(e),
                Ok((x, t)) => Ok((BlockBodyView::ApricotStandard(x), t)),
            }
        } else 
        if id == 4 {
            match ApricotAtomicBlock::de(s) {
                Err(e) => Err(e),
                Ok((x, t)) => Ok((BlockBodyView::ApricotAtomic(x), t)),
            }
        } else 
        if id == 29 {
            match BanffProposalBlock::de(s) {
                Err(e) => Err(e),
                Ok((x, t)) => Ok((BlockBodyView::BanffProposal(x), t)),
            }
        } else 
        if id == 30 {
            match BanffAbortBlock::de(s) {
                Err(e) => Err(e),
                Ok((x, t)) => Ok((BlockBodyView::BanffAbort(x), t)),
            }
        } else 
        if id == 31 {
            match BanffCommitBlock::de(s) {
                Err(e) => Err(e),
                Ok((x, t)) => Ok((BlockBodyView::BanffCommit(x), t)),
            }
        } else 
        if id == 32 {
            match BanffStandardBlock::de(s) {
                Err(e) => Err(e),
                Ok((x, t)) => Ok((BlockBodyView::BanffStandard(x), t)),
            }
        } else 
        {
            Err(CodecError::UnknownTypeId)
        },
    }
}

impl Wire for BlockBody {
    open spec fn fits(v: BlockBodyView) -> bool {
        block_body_fits(v)
    }

    open spec fn ser(v: BlockBodyView) -> Seq<u8> {
        block_body_ser(v)
    }

    open spec fn de(s: Seq<u8>) -> Read<BlockBodyView> {
        block_body_de(s)
    }

    proof fn round_trip(v: BlockBodyView, t: Seq<u8>) {
        reveal(block_body_fits);
        reveal(block_body_ser);
        reveal(block_body_de);
        lemma_pow256();
        match v {
            BlockBodyView::ApricotProposal(x) => {
                lemma_rd_be(0, 4, ApricotProposalBlock::ser(x) + t);
                lemma_concat(be(0, 4), ApricotProposalBlock::ser(x), t);
                ApricotProposalBlock::round_trip(x, t);
            },
            BlockBodyView::ApricotAbort(x) => {
                lemma_rd_be(1, 4, ApricotAbortBlock::ser(x) + t);
                lemma_concat(be(1, 4), ApricotAbortBlock::ser(x), t);
                ApricotAbortBlock::round_trip(x, t);
            },
            BlockBodyView::ApricotCommit(x) => {
                lemma_rd_be(2, 4, ApricotCommitBlock::ser(x) + t);
                lemma_concat(be(2, 4), ApricotCommitBlock::ser(x), t);
                ApricotCommitBlock::round_trip(x, t);
            },
            BlockBodyView::ApricotStandard(x) => {
                lemma_rd_be(3, 4, ApricotStandardBlock::ser(x) + t);
                lemma_concat(be(3, 4), ApricotStandardBlock::ser(x), t);
                ApricotStandardBlock::round_trip(x, t);
            },
            BlockBodyView::ApricotAtomic(x) => {
                lemma_rd_be(4, 4, ApricotAtomicBlock::ser(x) + t);
                lemma_concat(be(4, 4), ApricotAtomicBlock::ser(x), t);
                ApricotAtomicBlock::round_trip(x, t);
            },
            BlockBodyView::BanffProposal(x) => {
                lemma_rd_be(29, 4, BanffProposalBlock::ser(x) + t);
                lemma_concat(be(29, 4), BanffProposalBlock::ser(x), t);
                BanffProposalBlock::round_trip(x, t);
            },
            BlockBodyView::BanffAbort(x) => {
                lemma_rd_be(30, 4, BanffAbortBlock::ser(x) + t);
                lemma_concat(be(30, 4), BanffAbortBlock::ser(x), t);
                BanffAbortBlock::round_trip(x, t);
            },
            BlockBodyView::BanffCommit(x) => {
                lemma_rd_be(31, 4, BanffCommitBlock::ser(x) + t);
                lemma_concat(be(31, 4), BanffCommitBlock::ser(x), t);
                BanffCommitBlock::round_trip(x, t);
            },
            BlockBodyView::BanffStandard(x) => {
                lemma_rd_be(32, 4, BanffStandardBlock::ser(x) + t);
                lemma_concat(be(32, 4), BanffStandardBlock::ser(x), t);
                BanffStandardBlock::round_trip(x, t);
            },
        }
    }

    proof fn canonical(s: Seq<u8>) {
        reveal(block_body_fits);
        reveal(block_body_ser);
        reveal(block_body_de);
        lemma_rd_be_sound(s, 4);
        if let Ok((v, t)) = Self::de(s) {
            let u = (rd_be(s, 4)->0).1;
            match v {
                BlockBodyView::ApricotProposal(x) => {
                    ApricotProposalBlock::canonical(u);
                    lemma_concat(be(0, 4), ApricotProposalBlock::ser(x), t);
                },
                BlockBodyView::ApricotAbort(x) => {
                    ApricotAbortBlock::canonical(u);
                    lemma_concat(be(1, 4), ApricotAbortBlock::ser(x), t);
                },
                BlockBodyView::ApricotCommit(x) => {
                    ApricotCommitBlock::canonical(u);
                    lemma_concat(be(2, 4), ApricotCommitBlock::ser(x), t);
                },
                BlockBodyView::ApricotStandard(x) => {
                    ApricotStandardBlock::canonical(u);
                    lemma_concat(be(3, 4), ApricotStandardBlock::ser(x), t);
                },
                BlockBodyView::ApricotAtomic(x) => {
                    ApricotAtomicBlock::canonical(u);
                    lemma_concat(be(4, 4), ApricotAtomicBlock::ser(x), t);
                },
                BlockBodyView::BanffProposal(x) => {
                    BanffProposalBlock::canonical(u);
                    lemma_concat(be(29, 4), BanffProposalBlock::ser(x), t);
                },
                BlockBodyView::BanffAbort(x) => {
                    BanffAbortBlock::canonical(u);
                    lemma_concat(be(30, 4), BanffAbortBlock::ser(x), t);
                },
                BlockBodyView::BanffCommit(x) => {
                    BanffCommitBlock::canonical(u);
                    lemma_concat(be(31, 4), BanffCommitBlock::ser(x), t);
                },
                BlockBodyView::BanffStandard(x) => {
                    BanffStandardBlock::canonical(u);
                    lemma_concat(be(32, 4), BanffStandardBlock::ser(x), t);
                },
            }
        }
    }

    fn can_write(&self) -> (r: bool) {
        proof {
            reveal(block_body_fits);
        }
        match self {
            BlockBody::ApricotProposal(x) => x.can_write(),
            BlockBody::ApricotAbort(x) => x.can_write(),
            BlockBody::ApricotCommit(x) => x.can_write(),
            BlockBody::ApricotStandard(x) => x.can_write(),
            BlockBody::ApricotAtomic(x) => x.can_write(),
            BlockBody::BanffProposal(x) => x.can_write(),
            BlockBody::BanffAbort(x) => x.can_write(),
            BlockBody::BanffCommit(x) => x.can_write(),
            BlockBody::BanffStandard(x) => x.can_write(),
        }
    }

    fn write(&self, out: &mut Vec<u8>) {
        proof {
            reveal(block_body_fits);
            reveal(block_body_ser);
        }
        push_u32(out, self.codec_type_id());
        match self {
            BlockBody::ApricotProposal(x) => {
                x.write(out);
                proof {
                    lemma_concat(old(out)@, be(0, 4), ApricotProposalBlock::ser(x@));
                }
            },
            BlockBody::ApricotAbort(x) => {
                x.write(out);
                proof {
                    lemma_concat(old(out)@, be(1, 4), ApricotAbortBlock::ser(x@));
                }
            },
            BlockBody::ApricotCommit(x) => {
                x.write(out);
                proof {
                    lemma_concat(old(out)@, be(2, 4), ApricotCommitBlock::ser(x@));
                }
            },
            BlockBody::ApricotStandard(x) => {
                x.write(out);
                proof {
                    lemma_concat(old(out)@, be(3, 4), ApricotStandardBlock::ser(x@));
                }
            },
            BlockBody::ApricotAtomic(x) => {
                x.write(out);
                proof {
                    lemma_concat(old(out)@, be(4, 4), ApricotAtomicBlock::ser(x@));
                }
            },
            BlockBody::BanffProposal(x) => {
                x.write(out);
                proof {
                    lemma_concat(old(out)@, be(29, 4), BanffProposalBlock::ser(x@));
                }
            },
            BlockBody::BanffAbort(x) => {
                x.write(out);
                proof {
                    lemma_concat(old(out)@, be(30, 4), BanffAbortBlock::ser(x@));
                }
            },
            BlockBody::BanffCommit(x) => {
                x.write(out);
                proof {
                    lemma_concat(old(out)@, be(31, 4), BanffCommitBlock::ser(x@));
                }
            },
            BlockBody::BanffStandard(x) => {
                x.write(out);
                proof {
                    lemma_concat(old(out)@, be(32, 4), BanffStandardBlock::ser(x@));
                }
            },
        }
    }

    fn read(p: &mut Reader<'_>) -> (r: Result<BlockBody, CodecError>) {
        proof {
            reveal(block_body_de);
        }
        let id: u32 = match p.take_u32() {
            Some(id) => id,
            None => {
                return Err(CodecError::InsufficientLength);
            },
        };
        if id == 0 {
            match ApricotProposalBlock::read(p) {
                Ok(x) => Ok(BlockBody::ApricotProposal(x)),
                Err(e) => Err(e),
            }
        }
        else if id == 1 {
            match ApricotAbortBlock::read(p) {
                Ok(x) => Ok(BlockBody::ApricotAbort(x)),
                Err(e) => Err(e),
            }
        }
        else if id == 2 {
            match ApricotCommitBlock::read(p) {
                Ok(x) => Ok(BlockBody::ApricotCommit(x)),
                Err(e) => Err(e),
            }
        }
        else if id == 3 {
            match ApricotStandardBlock::read(p) {
                Ok(x) => Ok(BlockBody::ApricotStandard(x)),
                Err(e) => Err(e),
            }
        }
        else if id == 4 {
            match ApricotAtomicBlock::read(p) {
                Ok(x) => Ok(BlockBody::ApricotAtomic(x)),
                Err(e) => Err(e),
            }
        }
        else if id == 29 {
            match BanffProposalBlock::read(p) {
                Ok(x) => Ok(BlockBody::BanffProposal(x)),
                Err(e) => Err(e),
            }
        }
        else if id == 30 {
            match BanffAbortBlock::read(p) {
                Ok(x) => Ok(BlockBody::BanffAbort(x)),
                Err(e) => Err(e),
            }
        }
        else if id == 31 {
            match BanffCommitBlock::read(p) {
                Ok(x) => Ok(BlockBody::BanffCommit(x)),
                Err(e) => Err(e),
            }
        }
        else if id == 32 {
            match BanffStandardBlock::read(p) {
                Ok(x) => Ok(BlockBody::BanffStandard(x)),
                Err(e) => Err(e),
            }
        }
        else {
            Err(CodecError::UnknownTypeId)
        }
    }
}

impl BlockBodyView {
    /// The parent and the height.
    pub open spec fn common(self) -> CommonBlockView {
        match self {
            BlockBodyView::ApricotProposal(b) => b.common,
            BlockBodyView::ApricotAbort(b) => b.common,
            BlockBodyView::ApricotCommit(b) => b.common,
            BlockBodyView::ApricotStandard(b) => b.common,
            BlockBodyView::ApricotAtomic(b) => b.common,
            BlockBodyView::BanffProposal(b) => b.apricot.common,
            BlockBodyView::BanffAbort(b) => b.apricot.common,
            BlockBodyView::BanffCommit(b) => b.apricot.common,
            BlockBodyView::BanffStandard(b) => b.apricot.common,
        }
    }

    /// The time, of a body that has one.
    pub open spec fn time(self) -> Option<u64> {
        match self {
            BlockBodyView::ApricotProposal(_) => None,
            BlockBodyView::ApricotAbort(_) => None,
            BlockBodyView::ApricotCommit(_) => None,
            BlockBodyView::ApricotStandard(_) => None,
            BlockBodyView::ApricotAtomic(_) => None,
            BlockBodyView::BanffProposal(b) => Some(b.time),
            BlockBodyView::BanffAbort(b) => Some(b.time),
            BlockBodyView::BanffCommit(b) => Some(b.time),
            BlockBodyView::BanffStandard(b) => Some(b.time),
        }
    }

    /// Whether the body proposes a transaction.
    pub open spec fn proposal(self) -> bool {
        self is ApricotProposal || self is BanffProposal
    }
}

impl BlockBody {
    /// The transactions: those that are decided at once, then the proposed one.
    pub open spec fn tx_list(&self) -> Seq<Tx> {
        match self {
            BlockBody::ApricotProposal(b) => seq![b.tx],
            BlockBody::ApricotAbort(_) => Seq::empty(),
            BlockBody::ApricotCommit(_) => Seq::empty(),
            BlockBody::ApricotStandard(b) => b.transactions.items@,
            BlockBody::ApricotAtomic(b) => seq![b.tx],
            BlockBody::BanffProposal(b) => b.transactions.items@.push(b.apricot.tx),
            BlockBody::BanffAbort(_) => Seq::empty(),
            BlockBody::BanffCommit(_) => Seq::empty(),
            BlockBody::BanffStandard(b) => b.apricot.transactions.items@,
        }
    }

    /// The parent and the height.
    pub fn common(&self) -> (r: &CommonBlock)
        ensures
            r@ == self@.common(),
    {
        match self {
            BlockBody::ApricotProposal(b) => &b.common,
            BlockBody::ApricotAbort(b) => &b.common,
            BlockBody::ApricotCommit(b) => &b.common,
            BlockBody::ApricotStandard(b) => &b.common,
            BlockBody::ApricotAtomic(b) => &b.common,
            BlockBody::BanffProposal(b) => &b.apricot.common,
            BlockBody::BanffAbort(b) => &b.apricot.common,
            BlockBody::BanffCommit(b) => &b.apricot.common,
            BlockBody::BanffStandard(b) => &b.apricot.common,
        }
    }

    /// The transactions: those that are decided at once, then the proposed one.
    pub fn txs(&self) -> (r: Vec<&Tx>)
        ensures
            r@.len() == self.tx_list().len(),
            forall|i: int| 0 <= i < r@.len() ==> *(#[trigger] r@[i]) == self.tx_list()[i],
    {
        match self {
            BlockBody::ApricotProposal(b) => vec![&b.tx],
            BlockBody::ApricotAbort(_) => Vec::new(),
            BlockBody::ApricotCommit(_) => Vec::new(),
            BlockBody::ApricotStandard(b) => tx_refs(&b.transactions.items),
            BlockBody::ApricotAtomic(b) => vec![&b.tx],
            BlockBody::BanffProposal(b) => {
                let mut out: Vec<&Tx> = tx_refs(&b.transactions.items);
                out.push(&b.apricot.tx);
                out
            },
            BlockBody::BanffAbort(_) => Vec::new(),
            BlockBody::BanffCommit(_) => Vec::new(),
            BlockBody::BanffStandard(b) => tx_refs(&b.apricot.transactions.items),
        }
    }
}

fn tx_refs(txs: &Vec<Tx>) -> (r: Vec<&Tx>)
    ensures
        r@.len() == txs@.len(),
        forall|i: int| 0 <= i < r@.len() ==> *(#[trigger] r@[i]) == txs@[i],
{
    let n: usize = txs.len();
    let mut out: Vec<&Tx> = Vec::new();
    let mut i: usize = 0;
    while i < n
        invariant
            i <= n,
            n == txs@.len(),
            out@.len() == i,
            forall|j: int| 0 <= j < i ==> *(#[trigger] out@[j]) == txs@[j],
        decreases n - i,
    {
        out.push(&txs[i]);
        i += 1;
    }
    out
}

} // verus!
