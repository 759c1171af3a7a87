//! The parts that transactions are made of: outputs, inputs, owners and
//! authorizations.
use vstd::prelude::*;

use crate::codec::{be, lemma_concat, lemma_pow256, lemma_rd_be, lemma_rd_be_sound, push_u32, push_u64, rd_be, CodecError, Reader};
use crate::collections::ordmap::{Dup, Key};
use crate::error::{Error, Result as ChainResult};
use crate::ids::{Id, ShortId};
use crate::order::{lemma_lex_transitive, lex_lt};
use crate::stakeable::{LockIn, LockOut};
use crate::wire::{List, Read, Wire};

verus! {

/// Who may spend an output, and from when on.
#[derive(Debug, PartialEq, Eq)]
pub struct OutputOwners {
    /// The Unix time before which the output cannot be spent.
    pub locktime: u64,
    /// How many of the addresses have to sign.
    pub threshold: u32,
    /// The addresses.
    pub addrs: List<ShortId>,
}

/// What an [`OutputOwners`] holds.
#[verifier::ext_equal]
pub struct OutputOwnersView {
    /// The Unix time before which the output cannot be spent.
    pub locktime: u64,
    /// How many of the addresses have to sign.
    pub threshold: u32,
    /// The addresses.
    pub addrs: Seq<Seq<u8>>,
}

impl View for OutputOwners {
    type V = OutputOwnersView;

    open spec fn view(&self) -> OutputOwnersView {
        OutputOwnersView {
            locktime: self.locktime@,
            threshold: self.threshold@,
            addrs: self.addrs@,
        }
    }
}

impl Dup for OutputOwners {
    fn dup(&self) -> (r: OutputOwners) {
        OutputOwners {
            locktime: self.locktime.dup(),
            threshold: self.threshold.dup(),
            addrs: self.addrs.dup(),
        }
    }
}

/// Whether every length of a [`OutputOwners`] fits its field.
#[verifier::opaque]
pub open spec fn output_owners_fits(v: OutputOwnersView) -> bool {
    &&& u64::fits(v.locktime)
    &&& u32::fits(v.threshold)
    &&& List::<ShortId>::fits(v.addrs)
}

/// The fields of a [`OutputOwners`], in the order in which they are written.
#[verifier::opaque]
pub open spec fn output_owners_ser(v: OutputOwnersView) -> Seq<u8> {
    u64::ser(v.locktime) + (u32::ser(v.threshold) + (List::<ShortId>::ser(v.addrs)))
}

/// The fields of a [`OutputOwners`] at the start of `s`, and what follows.
#[verifier::opaque]
pub open spec fn output_owners_de(s: Seq<u8>) -> Read<OutputOwnersView> {
    match u64::de(s) {
        Err(e) => Err(e),
        Ok((locktime, s)) =>
    match u32::de(s) {
        Err(e) => Err(e),
        Ok((threshold, s)) =>
    match List::<ShortId>::de(s) {
        Err(e) => Err(e),
        Ok((addrs, s)) =>
        Ok((OutputOwnersView { locktime, threshold, addrs }, s)),
    },},}
}

impl Wire for OutputOwners {
    open spec fn fits(v: OutputOwnersView) -> bool {
        output_owners_fits(v)
    }

    open spec fn ser(v: OutputOwnersView) -> Seq<u8> {
        output_owners_ser(v)
    }

    open spec fn de(s: Seq<u8>) -> Read<OutputOwnersView> {
        output_owners_de(s)
    }

    proof fn round_trip(v: OutputOwnersView, t: Seq<u8>) {
        reveal(output_owners_fits);
        reveal(output_owners_ser);
        reveal(output_owners_de);
        let r2 = List::<ShortId>::ser(v.addrs);
        List::<ShortId>::round_trip(v.addrs, t);
        lemma_concat(u32::ser(v.threshold), r2, t);
        u32::round_trip(v.threshold, r2 + t);
        let r1 = u32::ser(v.threshold) + r2;
        lemma_concat(u64::ser(v.locktime), r1, t);
        u64::round_trip(v.locktime, r1 + t);
    }

    proof fn canonical(s: Seq<u8>) {
        reveal(output_owners_fits);
        reveal(output_owners_ser);
        reveal(output_owners_de);
        if let Ok((v, t)) = Self::de(s) {
            u64::canonical(s);
            let s1 = (u64::de(s)->Ok_0).1;
            u32::canonical(s1);
            let s2 = (u32::de(s1)->Ok_0).1;
            List::<ShortId>::canonical(s2);
            let r2 = List::<ShortId>::ser(v.addrs);
            lemma_concat(u32::ser(v.threshold), r2, t);
            let r1 = u32::ser(v.threshold) + r2;
            lemma_concat(u64::ser(v.locktime), r1, t);
        }
    }

    fn can_write(&self) -> (r: bool) {
        proof {
            reveal(output_owners_fits);
        }
        self.locktime.can_write() && self.threshold.can_write() && self.addrs.can_write()
    }

    fn write(&self, out: &mut Vec<u8>) {
        proof {
            reveal(output_owners_fits);
            reveal(output_owners_ser);
        }
        self.locktime.write(out);
        self.threshold.write(out);
        self.addrs.write(out);
        proof {
            let r2 = List::<ShortId>::ser(self.addrs@);
            lemma_concat((old(out)@ + u64::ser(self.locktime@)), u32::ser(self.threshold@), r2);
            let r1 = u32::ser(self.threshold@) + r2;
            lemma_concat(old(out)@, u64::ser(self.locktime@), r1);
        }
    }

    fn read(p: &mut Reader<'_>) -> (r: Result<OutputOwners, CodecError>) {
        proof {
            reveal(output_owners_de);
        }
        let locktime: u64 = match u64::read(p) {
            Ok(x) => x,
            Err(e) => {
                return Err(e);
            },
        };
        let threshold: u32 = match u32::read(p) {
            Ok(x) => x,
            Err(e) => {
                return Err(e);
            },
        };
        let addrs: List<ShortId> = match List::<ShortId>::read(p) {
            Ok(x) => x,
            Err(e) => {
                return Err(e);
            },
        };
        Ok(OutputOwners { locktime, threshold, addrs })
    }
}

/// An amount and its owners.
#[derive(Debug, PartialEq, Eq)]
pub struct TransferOutput {
    /// The amount.
    pub amt: u64,
    /// The owners.
    pub owners: OutputOwners,
}

/// What a [`TransferOutput`] holds.
#[verifier::ext_equal]
pub struct TransferOutputView {
    /// The amount.
    pub amt: u64,
    /// The owners.
    pub owners: OutputOwnersView,
}

impl View for TransferOutput {
    type V = TransferOutputView;

    open spec fn view(&self) -> TransferOutputView {
        TransferOutputView {
            amt: self.amt@,
            owners: self.owners@,
        }
    }
}

impl Dup for TransferOutput {
    fn dup(&self) -> (r: TransferOutput) {
        TransferOutput {
            amt: self.amt.dup(),
            owners: self.owners.dup(),
        }
    }
}

/// Whether every length of a [`TransferOutput`] fits its field.
#[verifier::opaque]
pub open spec fn transfer_output_fits(v: TransferOutputView) -> bool {
    &&& u64::fits(v.amt)
    &&& OutputOwners::fits(v.owners)
}

/// The fields of a [`TransferOutput`], in the order in which they are written.
#[verifier::opaque]
pub open spec fn transfer_output_ser(v: TransferOutputView) -> Seq<u8> {
    u64::ser(v.amt) + (OutputOwners::ser(v.owners))
}

/// The fields of a [`TransferOutput`] at the start of `s`, and what follows.
#[verifier::opaque]
pub open spec fn transfer_output_de(s: Seq<u8>) -> Read<TransferOutputView> {
    match u64::de(s) {
        Err(e) => Err(e),
        Ok((amt, s)) =>
    match OutputOwners::de(s) {
        Err(e) => Err(e),
        Ok((owners, s)) =>
        Ok((TransferOutputView { amt, owners }, s)),
    },}
}

impl Wire for TransferOutput {
    open spec fn fits(v: TransferOutputView) -> bool {
        transfer_output_fits(v)
    }

    open spec fn ser(v: TransferOutputView) -> Seq<u8> {
        transfer_output_ser(v)
    }

    open spec fn de(s: Seq<u8>) -> Read<TransferOutputView> {
        transfer_output_de(s)
    }

    proof fn round_trip(v: TransferOutputView, t: Seq<u8>) {
        reveal(transfer_output_fits);
        reveal(transfer_output_ser);
        reveal(transfer_output_de);
        let r1 = OutputOwners::ser(v.owners);
        OutputOwners::round_trip(v.owners, t);
        lemma_concat(u64::ser(v.amt), r1, t);
        u64::round_trip(v.amt, r1 + t);
    }

    proof fn canonical(s: Seq<u8>) {
        reveal(transfer_output_fits);
        reveal(transfer_output_ser);
        reveal(transfer_output_de);
        if let Ok((v, t)) = Self::de(s) {
            u64::canonical(s);
            let s1 = (u64::de(s)->Ok_0).1;
            OutputOwners::canonical(s1);
            let r1 = OutputOwners::ser(v.owners);
            lemma_concat(u64::ser(v.amt), r1, t);
        }
    }

    fn can_write(&self) -> (r: bool) {
        proof {
            reveal(transfer_output_fits);
        }
        self.amt.can_write() && self.owners.can_write()
    }

    fn write(&self, out: &mut Vec<u8>) {
        proof {
            reveal(transfer_output_fits);
            reveal(transfer_output_ser);
        }
        self.amt.write(out);
        self.owners.write(out);
        proof {
            let r1 = OutputOwners::ser(self.owners@);
            lemma_concat(old(out)@, u64::ser(self.amt@), r1);
        }
    }

    fn read(p: &mut Reader<'_>) -> (r: Result<TransferOutput, CodecError>) {
        proof {
            reveal(transfer_output_de);
        }
        let amt: u64 = match u64::read(p) {
            Ok(x) => x,
            Err(e) => {
                return Err(e);
            },
        };
        let owners: OutputOwners = match OutputOwners::read(p) {
            Ok(x) => x,
            Err(e) => {
                return Err(e);
            },
        };
        Ok(TransferOutput { amt, owners })
    }
}

/// An amount that is spent, and who signs for it.
#[derive(Debug, PartialEq, Eq)]
pub struct TransferInput {
    /// The amount.
    pub amt: u64,
    /// Which of the addresses sign.
    pub sig_indices: List<u32>,
}

/// What a [`TransferInput`] holds.
#[verifier::ext_equal]
pub struct TransferInputView {
    /// The amount.
    pub amt: u64,
    /// Which of the addresses sign.
    pub sig_indices: Seq<u32>,
}

impl View for TransferInput {
    type V = TransferInputView;

    open spec fn view(&self) -> TransferInputView {
        TransferInputView {
            amt: self.amt@,
            sig_indices: self.sig_indices@,
        }
    }
}

impl Dup for TransferInput {
    fn dup(&self) -> (r: TransferInput) {
        TransferInput {
            amt: self.amt.dup(),
            sig_indices: self.sig_indices.dup(),
        }
    }
}

/// Whether every length of a [`TransferInput`] fits its field.
#[verifier::opaque]
pub open spec fn transfer_input_fits(v: TransferInputView) -> bool {
    &&& u64::fits(v.amt)
    &&& List::<u32>::fits(v.sig_indices)
}

/// The fields of a [`TransferInput`], in the order in which they are written.
#[verifier::opaque]
pub open spec fn transfer_input_ser(v: TransferInputView) -> Seq<u8> {
    u64::ser(v.amt) + (List::<u32>::ser(v.sig_indices))
}

/// The fields of a [`TransferInput`] at the start of `s`, and what follows.
#[verifier::opaque]
pub open spec fn transfer_input_de(s: Seq<u8>) -> Read<TransferInputView> {
    match u64::de(s) {
        Err(e) => Err(e),
        Ok((amt, s)) =>
    match List::<u32>::de(s) {
        Err(e) => Err(e),
        Ok((sig_indices, s)) =>
        Ok((TransferInputView { amt, sig_indices }, s)),
    },}
}

impl Wire for TransferInput {
    open spec fn fits(v: TransferInputView) -> bool {
        transfer_input_fits(v)
    }

    open spec fn ser(v: TransferInputView) -> Seq<u8> {
        transfer_input_ser(v)
    }

    open spec fn de(s: Seq<u8>) -> Read<TransferInputView> {
        transfer_input_de(s)
    }

    proof fn round_trip(v: TransferInputView, t: Seq<u8>) {
        reveal(transfer_input_fits);
        reveal(transfer_input_ser);
        reveal(transfer_input_de);
        let r1 = List::<u32>::ser(v.sig_indices);
        List::<u32>::round_trip(v.sig_indices, t);
        lemma_concat(u64::ser(v.amt), r1, t);
        u64::round_trip(v.amt, r1 + t);
    }

    proof fn canonical(s: Seq<u8>) {
        reveal(transfer_input_fits);
        reveal(transfer_input_ser);
        reveal(transfer_input_de);
        if let Ok((v, t)) = Self::de(s) {
            u64::canonical(s);
            let s1 = (u64::de(s)->Ok_0).1;
            List::<u32>::canonical(s1);
            let r1 = List::<u32>::ser(v.sig_indices);
            lemma_concat(u64::ser(v.amt), r1, t);
        }
    }

    fn can_write(&self) -> (r: bool) {
        proof {
            reveal(transfer_input_fits);
        }
        self.amt.can_write() && self.sig_indices.can_write()
    }

    fn write(&self, out: &mut Vec<u8>) {
        proof {
            reveal(transfer_input_fits);
            reveal(transfer_input_ser);
        }
        self.amt.write(out);
        self.sig_indices.write(out);
        proof {
            let r1 = List::<u32>::ser(self.sig_indices@);
            lemma_concat(old(out)@, u64::ser(self.amt@), r1);
        }
    }

    fn read(p: &mut Reader<'_>) -> (r: Result<TransferInput, CodecError>) {
        proof {
            reveal(transfer_input_de);
        }
        let amt: u64 = match u64::read(p) {
            Ok(x) => x,
            Err(e) => {
                return Err(e);
            },
        };
        let sig_indices: List<u32> = match List::<u32>::read(p) {
            Ok(x) => x,
            Err(e) => {
                return Err(e);
            },
        };
        Ok(TransferInput { amt, sig_indices })
    }
}

/// Whether the addresses are in increasing order.
pub open spec fn sorted_addrs(s: Seq<Seq<u8>>) -> bool {
    forall|i: int, j: int| 0 <= i < j < s.len() ==> lex_lt(#[trigger] s[i], #[trigger] s[j])
}

impl OutputOwnersView {
    /// Whether the owners are well formed: the threshold can be met, is not
    /// zero unless there is no address, and the addresses are in increasing
    /// order.
    pub open spec fn valid(self) -> bool {
        &&& self.threshold <= self.addrs.len()
        &&& (self.threshold == 0 ==> self.addrs.len() == 0)
        &&& sorted_addrs(self.addrs)
    }
}

impl TransferOutputView {
    /// Whether the output is well formed: it holds an amount, and its owners
    /// are well formed.
    pub open spec fn valid(self) -> bool {
        self.amt != 0 && self.owners.valid()
    }
}

impl TransferInputView {
    /// Whether the input is well formed: it spends an amount, and the signers
    /// are in increasing order.
    pub open spec fn valid(self) -> bool {
        &&& self.amt != 0
        &&& forall|i: int, j: int|
            0 <= i < j < self.sig_indices.len() ==> #[trigger] self.sig_indices[i]
                < #[trigger] self.sig_indices[j]
    }
}

impl OutputOwners {
    /// Owners of an output.
    pub fn new(locktime: u64, threshold: u32, addrs: Vec<ShortId>) -> (r: OutputOwners)
        ensures
            r.locktime == locktime,
            r.threshold == threshold,
            r.addrs.items == addrs,
    {
        OutputOwners { locktime, threshold, addrs: List { items: addrs } }
    }

    /// Whether the owners are well formed.
    pub fn verify(&self) -> (r: ChainResult<()>)
        ensures
            r is Ok <==> self@.valid(),
            r matches Err(e) ==> e == Error::InvalidComponent,
    {
        let n: usize = self.addrs.items.len();
        assert(self@.addrs.len() == n);
        if self.threshold as usize > n {
            return Err(Error::InvalidComponent);
        }
        if self.threshold == 0 && n > 0 {
            return Err(Error::InvalidComponent);
        }
        let mut i: usize = 1;
        while i < n
            invariant
                1 <= i,
                i <= n || n == 0,
                n == self.addrs.items@.len(),
                sorted_addrs(self@.addrs.take(if i <= n { i as int } else { n as int })),
            decreases n - i,
        {
            let ghost s = self@.addrs;
            assert(s[i as int] == self.addrs.items@[i as int]@);
            assert(s[i - 1] == self.addrs.items@[i - 1]@);
            if !self.addrs.items[i - 1].precedes(&self.addrs.items[i]) {
                assert(!sorted_addrs(s));
                return Err(Error::InvalidComponent);
            }
            proof {
                let a = s.take(i as int);
                let b = s.take(i + 1);
                assert forall|x: int, y: int| 0 <= x < y < b.len() implies lex_lt(
                    #[trigger] b[x],
                    #[trigger] b[y],
                ) by {
                    if y < i {
                        assert(a[x] == b[x] && a[y] == b[y]);
                    } else if x < i - 1 {
                        assert(a[x] == b[x] && a[i - 1] == b[i - 1]);
                        lemma_lex_transitive(b[x], b[i - 1], b[y]);
                    }
                }
            }
            i += 1;
        }
        assert(self@.addrs.take(n as int) =~= self@.addrs);
        Ok(())
    }
}

impl TransferOutput {
    /// An output.
    pub fn new(amt: u64, owners: OutputOwners) -> (r: TransferOutput)
        ensures
            r.amt == amt,
            r.owners == owners,
    {
        TransferOutput { amt, owners }
    }

    /// Whether the output is well formed.
    pub fn verify(&self) -> (r: ChainResult<()>)
        ensures
            r is Ok <==> self@.valid(),
            r matches Err(e) ==> e == Error::InvalidComponent,
    {
        if self.amt == 0 {
            return Err(Error::InvalidComponent);
        }
        self.owners.verify()
    }
}

impl TransferInput {
    /// An input.
    pub fn new(amt: u64, sig_indices: Vec<u32>) -> (r: TransferInput)
        ensures
            r.amt == amt,
            r.sig_indices.items == sig_indices,
    {
        TransferInput { amt, sig_indices: List { items: sig_indices } }
    }

    /// Whether the input is well formed.
    pub fn verify(&self) -> (r: ChainResult<()>)
        ensures
            r is Ok <==> self@.valid(),
            r matches Err(e) ==> e == Error::InvalidComponent,
    {
        if self.amt == 0 {
            return Err(Error::InvalidComponent);
        }
        let n: usize = self.sig_indices.items.len();
        let ghost s = self@.sig_indices;
        assert(s.len() == n);
        let mut i: usize = 1;
        while i < n
            invariant
                1 <= i,
                n == self.sig_indices.items@.len(),
                s == self@.sig_indices,
                s.len() == n,
                forall|x: int, y: int| 0 <= x < y < i && y < n ==> #[trigger] s[x] < #[trigger] s[y],
            decreases n - i,
        {
            assert(s[i as int] == self.sig_indices.items@[i as int]);
            assert(s[i - 1] == self.sig_indices.items@[i - 1]);
            if self.sig_indices.items[i - 1] >= self.sig_indices.items[i] {
                assert(!self@.valid());
                return Err(Error::InvalidComponent);
            }
            i += 1;
        }
        Ok(())
    }
}

/// An output.
#[derive(Debug, PartialEq, Eq)]
pub enum Output {
    /// An amount that its owners may spend.
    Transfer(TransferOutput),
    /// An output that may only be staked until some time.
    StakeableLock(LockOut),
}

/// What an [`Output`] holds.
pub enum OutputView {
    /// An amount that its owners may spend.
    Transfer(TransferOutputView),
    /// An output that may only be staked until some time.
    StakeableLock(u64, Box<OutputView>),
}

/// What `v` holds.
pub open spec fn output_view(v: Output) -> OutputView
    decreases v,
{
    match v {
        Output::Transfer(x) => OutputView::Transfer(x@),
        Output::StakeableLock(l) => OutputView::StakeableLock(
            l.locktime,
            Box::new(output_view(*l.transferable_out)),
        ),
    }
}

impl View for Output {
    type V = OutputView;

    open spec fn view(&self) -> OutputView {
        output_view(*self)
    }
}

impl OutputView {
    /// The amount, under all locks.
    pub open spec fn amount(self) -> u64
        decreases self,
    {
        match self {
            OutputView::Transfer(x) => x.amt,
            OutputView::StakeableLock(_, x) => x.amount(),
        }
    }
}

/// Whether every length fits its field.
pub open spec fn output_fits(v: OutputView) -> bool
    decreases v,
{
    match v {
        OutputView::Transfer(x) => TransferOutput::fits(x),
        OutputView::StakeableLock(_, x) => output_fits(*x),
    }
}

/// The bytes of `v`: the type id, and what it is the type of. A lock holds its
/// time and another value with its own type id.
pub open spec fn output_ser(v: OutputView) -> Seq<u8>
    decreases v,
{
    match v {
        OutputView::Transfer(x) => be(7, 4) + TransferOutput::ser(x),
        OutputView::StakeableLock(locktime, x) => be(22, 4) + (be(locktime as nat, 8) + output_ser(*x)),
    }
}

/// The value at the start of `s`, and what follows.
pub open spec fn output_de(s: Seq<u8>) -> Read<OutputView>
    decreases s.len(),
{
    match rd_be(s, 4) {
        None => Err(CodecError::InsufficientLength),
        Some((id, t)) => if id == 7 {
            match TransferOutput::de(t) {
                Err(e) => Err(e),
                Ok((x, u)) => Ok((OutputView::Transfer(x), u)),
            }
        } else if id == 22 {
            match rd_be(t, 8) {
                None => Err(CodecError::InsufficientLength),
                Some((locktime, u)) => match output_de(u) {
                    Err(e) => Err(e),
                    Ok((x, w)) => Ok((OutputView::StakeableLock(locktime as u64, Box::new(x)), w)),
                },
            }
        } else {
            Err(CodecError::UnknownTypeId)
        },
    }
}

proof fn lemma_output_round_trip(v: OutputView, t: Seq<u8>)
    requires
        output_fits(v),
    ensures
        output_de(output_ser(v) + t) == Ok::<(OutputView, Seq<u8>), CodecError>((v, t)),
    decreases v,
{
    lemma_pow256();
    match v {
        OutputView::Transfer(x) => {
            lemma_rd_be(7, 4, TransferOutput::ser(x) + t);
            lemma_concat(be(7, 4), TransferOutput::ser(x), t);
            TransferOutput::round_trip(x, t);
        },
        OutputView::StakeableLock(locktime, x) => {
            let u = output_ser(*x) + t;
            lemma_output_round_trip(*x, t);
            lemma_rd_be(locktime as nat, 8, u);
            lemma_rd_be(22, 4, be(locktime as nat, 8) + u);
            lemma_concat(be(22, 4), be(locktime as nat, 8) + output_ser(*x), t);
            lemma_concat(be(locktime as nat, 8), output_ser(*x), t);
        },
    }
}

proof fn lemma_output_canonical(s: Seq<u8>)
    ensures
        output_de(s) matches Ok((v, t)) ==> output_fits(v) && s == output_ser(v) + t,
    decreases s.len(),
{
    lemma_pow256();
    lemma_rd_be_sound(s, 4);
    if let Ok((v, t)) = output_de(s) {
        let u = (rd_be(s, 4)->0).1;
        match v {
            OutputView::Transfer(x) => {
                TransferOutput::canonical(u);
                lemma_concat(be(7, 4), TransferOutput::ser(x), t);
            },
            OutputView::StakeableLock(locktime, x) => {
                lemma_rd_be_sound(u, 8);
                let w = (rd_be(u, 8)->0).1;
                lemma_output_canonical(w);
                lemma_concat(be(22, 4), be(locktime as nat, 8) + output_ser(*x), t);
                lemma_concat(be(locktime as nat, 8), output_ser(*x), t);
            },
        }
    }
}

impl Wire for Output {
    open spec fn fits(v: OutputView) -> bool {
        output_fits(v)
    }

    open spec fn ser(v: OutputView) -> Seq<u8> {
        output_ser(v)
    }

    open spec fn de(s: Seq<u8>) -> Read<OutputView> {
        output_de(s)
    }

    proof fn round_trip(v: OutputView, t: Seq<u8>) {
        lemma_output_round_trip(v, t);
    }

    proof fn canonical(s: Seq<u8>) {
        lemma_output_canonical(s);
    }

    fn can_write(&self) -> (r: bool)
        decreases self,
    {
        match self {
            Output::Transfer(x) => x.can_write(),
            Output::StakeableLock(l) => l.transferable_out.can_write(),
        }
    }

    fn write(&self, out: &mut Vec<u8>)
        decreases self,
    {
        match self {
            Output::Transfer(x) => {
                push_u32(out, 7);
                x.write(out);
            },
            Output::StakeableLock(l) => {
                push_u32(out, 22);
                push_u64(out, l.locktime);
                l.transferable_out.write(out);
            },
        }
        assert(out@ =~= old(out)@ + Self::ser(self@));
    }

    fn read(p: &mut Reader<'_>) -> (r: Result<Output, CodecError>)
        decreases old(p).rest().len(),
    {
        let id: u32 = match p.take_u32() {
            Some(id) => id,
            None => {
                return Err(CodecError::InsufficientLength);
            },
        };
        if id == 7 {
            match TransferOutput::read(p) {
                Ok(x) => Ok(Output::Transfer(x)),
                Err(e) => Err(e),
            }
        } else if id == 22 {
            let locktime: u64 = match p.take_u64() {
                Some(t) => t,
                None => {
                    return Err(CodecError::InsufficientLength);
                },
            };
            match Output::read(p) {
                Ok(x) => {
                    let ghost xv = x@;
                    let r = Output::StakeableLock(LockOut { locktime, transferable_out: Box::new(x) });
                    assert(r@ == OutputView::StakeableLock(locktime, Box::new(xv)));
                    Ok(r)
                },
                Err(e) => Err(e),
            }
        } else {
            Err(CodecError::UnknownTypeId)
        }
    }
}

impl Dup for Output {
    fn dup(&self) -> (r: Output)
        decreases self,
    {
        match self {
            Output::Transfer(x) => Output::Transfer(x.dup()),
            Output::StakeableLock(l) => {
                let inner = l.transferable_out.dup();
                let r = Output::StakeableLock(
                    LockOut { locktime: l.locktime, transferable_out: Box::new(inner) },
                );
                assert(r@ == self@);
                r
            },
        }
    }
}

impl Output {
    /// The amount, under all locks.
    pub fn amount(&self) -> (r: u64)
        ensures
            r == self@.amount(),
        decreases self,
    {
        match self {
            Output::Transfer(x) => x.amt,
            Output::StakeableLock(l) => l.transferable_out.amount(),
        }
    }

    /// Whether the value is well formed. A lock has a time, holds no other
    /// lock, and what it holds is well formed.
    pub fn verify(&self) -> (r: ChainResult<()>)
        ensures
            r is Ok <==> valid_output(self@),
            r matches Err(e) ==> e == output_failure(self@),
    {
        proof {
            reveal_with_fuel(output_view, 3);
        }
        match self {
            Output::Transfer(x) => x.verify(),
            Output::StakeableLock(l) => {
                if l.locktime == 0 {
                    return Err(Error::InvalidLocktime);
                }
                match &*l.transferable_out {
                    Output::StakeableLock(_) => Err(Error::NestedStakeableLock),
                    Output::Transfer(x) => x.verify(),
                }
            },
        }
    }
}

/// Whether the value is well formed. A lock has a time, holds no other lock,
/// and what it holds is well formed.
pub open spec fn valid_output(v: OutputView) -> bool {
    match v {
        OutputView::Transfer(x) => x.valid(),
        OutputView::StakeableLock(locktime, inner) => locktime != 0 && match *inner {
            OutputView::StakeableLock(_, _) => false,
            OutputView::Transfer(x) => x.valid(),
        },
    }
}

/// Why a value that is not well formed is not.
pub open spec fn output_failure(v: OutputView) -> Error {
    match v {
        OutputView::Transfer(_) => Error::InvalidComponent,
        OutputView::StakeableLock(locktime, inner) => if locktime == 0 {
            Error::InvalidLocktime
        } else {
            match *inner {
                OutputView::StakeableLock(_, _) => Error::NestedStakeableLock,
                OutputView::Transfer(_) => Error::InvalidComponent,
            }
        },
    }
}

/// An input.
#[derive(Debug, PartialEq, Eq)]
pub enum Input {
    /// An amount that is spent.
    Transfer(TransferInput),
    /// An input that spends a locked output.
    StakeableLock(LockIn),
}

/// What an [`Input`] holds.
pub enum InputView {
    /// An amount that is spent.
    Transfer(TransferInputView),
    /// An input that spends a locked output.
    StakeableLock(u64, Box<InputView>),
}

/// What `v` holds.
pub open spec fn input_view(v: Input) -> InputView
    decreases v,
{
    match v {
        Input::Transfer(x) => InputView::Transfer(x@),
        Input::StakeableLock(l) => InputView::StakeableLock(
            l.locktime,
            Box::new(input_view(*l.transferable_in)),
        ),
    }
}

impl View for Input {
    type V = InputView;

    open spec fn view(&self) -> InputView {
        input_view(*self)
    }
}

impl InputView {
    /// The amount, under all locks.
    pub open spec fn amount(self) -> u64
        decreases self,
    {
        match self {
            InputView::Transfer(x) => x.amt,
            InputView::StakeableLock(_, x) => x.amount(),
        }
    }
}

/// Whether every length fits its field.
pub open spec fn input_fits(v: InputView) -> bool
    decreases v,
{
    match v {
        InputView::Transfer(x) => TransferInput::fits(x),
        InputView::StakeableLock(_, x) => input_fits(*x),
    }
}

/// The bytes of `v`: the type id, and what it is the type of. A lock holds its
/// time and another value with its own type id.
pub open spec fn input_ser(v: InputView) -> Seq<u8>
    decreases v,
{
    match v {
        InputView::Transfer(x) => be(5, 4) + TransferInput::ser(x),
        InputView::StakeableLock(locktime, x) => be(21, 4) + (be(locktime as nat, 8) + input_ser(*x)),
    }
}

/// The value at the start of `s`, and what follows.
pub open spec fn input_de(s: Seq<u8>) -> Read<InputView>
    decreases s.len(),
{
    match rd_be(s, 4) {
        None => Err(CodecError::InsufficientLength),
        Some((id, t)) => if id == 5 {
            match TransferInput::de(t) {
                Err(e) => Err(e),
                Ok((x, u)) => Ok((InputView::Transfer(x), u)),
            }
        } else if id == 21 {
            match rd_be(t, 8) {
                None => Err(CodecError::InsufficientLength),
                Some((locktime, u)) => match input_de(u) {
                    Err(e) => Err(e),
                    Ok((x, w)) => Ok((InputView::StakeableLock(locktime as u64, Box::new(x)), w)),
                },
            }
        } else {
            Err(CodecError::UnknownTypeId)
        },
    }
}

proof fn lemma_input_round_trip(v: InputView, t: Seq<u8>)
    requires
        input_fits(v),
    ensures
        input_de(input_ser(v) + t) == Ok::<(InputView, Seq<u8>), CodecError>((v, t)),
    decreases v,
{
    lemma_pow256();
    match v {
        InputView::Transfer(x) => {
            lemma_rd_be(5, 4, TransferInput::ser(x) + t);
            lemma_concat(be(5, 4), TransferInput::ser(x), t);
            TransferInput::round_trip(x, t);
        },
        InputView::StakeableLock(locktime, x) => {
            let u = input_ser(*x) + t;
            lemma_input_round_trip(*x, t);
            lemma_rd_be(locktime as nat, 8, u);
            lemma_rd_be(21, 4, be(locktime as nat, 8) + u);
            lemma_concat(be(21, 4), be(locktime as nat, 8) + input_ser(*x), t);
            lemma_concat(be(locktime as nat, 8), input_ser(*x), t);
        },
    }
}

proof fn lemma_input_canonical(s: Seq<u8>)
    ensures
        input_de(s) matches Ok((v, t)) ==> input_fits(v) && s == input_ser(v) + t,
    decreases s.len(),
{
    lemma_pow256();
    lemma_rd_be_sound(s, 4);
    if let Ok((v, t)) = input_de(s) {
        let u = (rd_be(s, 4)->0).1;
        match v {
            InputView::Transfer(x) => {
                TransferInput::canonical(u);
                lemma_concat(be(5, 4), TransferInput::ser(x), t);
            },
            InputView::StakeableLock(locktime, x) => {
                lemma_rd_be_sound(u, 8);
                let w = (rd_be(u, 8)->0).1;
                lemma_input_canonical(w);
                lemma_concat(be(21, 4), be(locktime as nat, 8) + input_ser(*x), t);
                lemma_concat(be(locktime as nat, 8), input_ser(*x), t);
            },
        }
    }
}

impl Wire for Input {
    open spec fn fits(v: InputView) -> bool {
        input_fits(v)
    }

    open spec fn ser(v: InputView) -> Seq<u8> {
        input_ser(v)
    }

    open spec fn de(s: Seq<u8>) -> Read<InputView> {
        input_de(s)
    }

    proof fn round_trip(v: InputView, t: Seq<u8>) {
        lemma_input_round_trip(v, t);
    }

    proof fn canonical(s: Seq<u8>) {
        lemma_input_canonical(s);
    }

    fn can_write(&self) -> (r: bool)
        decreases self,
    {
        match self {
            Input::Transfer(x) => x.can_write(),
            Input::StakeableLock(l) => l.transferable_in.can_write(),
        }
    }

    fn write(&self, out: &mut Vec<u8>)
        decreases self,
    {
        match self {
            Input::Transfer(x) => {
                push_u32(out, 5);
                x.write(out);
            },
            Input::StakeableLock(l) => {
                push_u32(out, 21);
                push_u64(out, l.locktime);
                l.transferable_in.write(out);
            },
        }
        assert(out@ =~= old(out)@ + Self::ser(self@));
    }

    fn read(p: &mut Reader<'_>) -> (r: Result<Input, CodecError>)
        decreases old(p).rest().len(),
    {
        let id: u32 = match p.take_u32() {
            Some(id) => id,
            None => {
                return Err(CodecError::InsufficientLength);
            },
        };
        if id == 5 {
            match TransferInput::read(p) {
                Ok(x) => Ok(Input::Transfer(x)),
                Err(e) => Err(e),
            }
        } else if id == 21 {
            let locktime: u64 = match p.take_u64() {
                Some(t) => t,
                None => {
                    return Err(CodecError::InsufficientLength);
                },
            };
            match Input::read(p) {
                Ok(x) => {
                    let ghost xv = x@;
                    let r = Input::StakeableLock(LockIn { locktime, transferable_in: Box::new(x) });
                    assert(r@ == InputView::StakeableLock(locktime, Box::new(xv)));
                    Ok(r)
                },
                Err(e) => Err(e),
            }
        } else {
            Err(CodecError::UnknownTypeId)
        }
    }
}

impl Dup for Input {
    fn dup(&self) -> (r: Input)
        decreases self,
    {
        match self {
            Input::Transfer(x) => Input::Transfer(x.dup()),
            Input::StakeableLock(l) => {
                let inner = l.transferable_in.dup();
                let r = Input::StakeableLock(
                    LockIn { locktime: l.locktime, transferable_in: Box::new(inner) },
                );
                assert(r@ == self@);
                r
            },
        }
    }
}

impl Input {
    /// The amount, under all locks.
    pub fn amount(&self) -> (r: u64)
        ensures
            r == self@.amount(),
        decreases self,
    {
        match self {
            Input::Transfer(x) => x.amt,
            Input::StakeableLock(l) => l.transferable_in.amount(),
        }
    }

    /// Whether the value is well formed. A lock has a time, holds no other
    /// lock, and what it holds is well formed.
    pub fn verify(&self) -> (r: ChainResult<()>)
        ensures
            r is Ok <==> valid_input(self@),
            r matches Err(e) ==> e == input_failure(self@),
    {
        proof {
            reveal_with_fuel(input_view, 3);
        }
        match self {
            Input::Transfer(x) => x.verify(),
            Input::StakeableLock(l) => {
                if l.locktime == 0 {
                    return Err(Error::InvalidLocktime);
                }
                match &*l.transferable_in {
                    Input::StakeableLock(_) => Err(Error::NestedStakeableLock),
                    Input::Transfer(x) => x.verify(),
                }
            },
        }
    }
}

/// Whether the value is well formed. A lock has a time, holds no other lock,
/// and what it holds is well formed.
pub open spec fn valid_input(v: InputView) -> bool {
    match v {
        InputView::Transfer(x) => x.valid(),
        InputView::StakeableLock(locktime, inner) => locktime != 0 && match *inner {
            InputView::StakeableLock(_, _) => false,
            InputView::Transfer(x) => x.valid(),
        },
    }
}

/// Why a value that is not well formed is not.
pub open spec fn input_failure(v: InputView) -> Error {
    match v {
        InputView::Transfer(_) => Error::InvalidComponent,
        InputView::StakeableLock(locktime, inner) => if locktime == 0 {
            Error::InvalidLocktime
        } else {
            match *inner {
                InputView::StakeableLock(_, _) => Error::NestedStakeableLock,
                InputView::Transfer(_) => Error::InvalidComponent,
            }
        },
    }
}

/// An output of some asset.
#[derive(Debug, PartialEq, Eq)]
pub struct TransferableOutput {
    /// The asset.
    pub asset_id: Id,
    /// The output.
    pub out: Output,
}

/// What a [`TransferableOutput`] holds.
#[verifier::ext_equal]
pub struct TransferableOutputView {
    /// The asset.
    pub asset_id: Seq<u8>,
    /// The output.
    pub out: OutputView,
}

impl View for TransferableOutput {
    type V = TransferableOutputView;

    open spec fn view(&self) -> TransferableOutputView {
        TransferableOutputView {
            asset_id: self.asset_id@,
            out: self.out@,
        }
    }
}

impl Dup for TransferableOutput {
    fn dup(&self) -> (r: TransferableOutput) {
        TransferableOutput {
            asset_id: self.asset_id.dup(),
            out: self.out.dup(),
        }
    }
}

/// Whether every length of a [`TransferableOutput`] fits its field.
#[verifier::opaque]
pub open spec fn transferable_output_fits(v: TransferableOutputView) -> bool {
    &&& Id::fits(v.asset_id)
    &&& Output::fits(v.out)
}

/// The fields of a [`TransferableOutput`], in the order in which they are written.
#[verifier::opaque]
pub open spec fn transferable_output_ser(v: TransferableOutputView) -> Seq<u8> {
    Id::ser(v.asset_id) + (Output::ser(v.out))
}

/// The fields of a [`TransferableOutput`] at the start of `s`, and what follows.
#[verifier::opaque]
pub open spec fn transferable_output_de(s: Seq<u8>) -> Read<TransferableOutputView> {
    match Id::de(s) {
        Err(e) => Err(e),
        Ok((asset_id, s)) =>
    match Output::de(s) {
        Err(e) => Err(e),
        Ok((out, s)) =>
        Ok((TransferableOutputView { asset_id, out }, s)),
    },}
}

impl Wire for TransferableOutput {
    open spec fn fits(v: TransferableOutputView) -> bool {
        transferable_output_fits(v)
    }

    open spec fn ser(v: TransferableOutputView) -> Seq<u8> {
        transferable_output_ser(v)
    }

    open spec fn de(s: Seq<u8>) -> Read<TransferableOutputView> {
        transferable_output_de(s)
    }

    proof fn round_trip(v: TransferableOutputView, t: Seq<u8>) {
        reveal(transferable_output_fits);
        reveal(transferable_output_ser);
        reveal(transferable_output_de);
        let r1 = Output::ser(v.out);
        Output::round_trip(v.out, t);
        lemma_concat(Id::ser(v.asset_id), r1, t);
        Id::round_trip(v.asset_id, r1 + t);
    }

    proof fn canonical(s: Seq<u8>) {
        reveal(transferable_output_fits);
        reveal(transferable_output_ser);
        reveal(transferable_output_de);
        if let Ok((v, t)) = Self::de(s) {
            Id::canonical(s);
            let s1 = (Id::de(s)->Ok_0).1;
            Output::canonical(s1);
            let r1 = Output::ser(v.out);
            lemma_concat(Id::ser(v.asset_id), r1, t);
        }
    }

    fn can_write(&self) -> (r: bool) {
        proof {
            reveal(transferable_output_fits);
        }
        self.asset_id.can_write() && self.out.can_write()
    }

    fn write(&self, out: &mut Vec<u8>) {
        proof {
            reveal(transferable_output_fits);
            reveal(transferable_output_ser);
        }
        self.asset_id.write(out);
        self.out.write(out);
        proof {
            let r1 = Output::ser(self.out@);
            lemma_concat(old(out)@, Id::ser(self.asset_id@), r1);
        }
    }

    fn read(p: &mut Reader<'_>) -> (r: Result<TransferableOutput, CodecError>) {
        proof {
            reveal(transferable_output_de);
        }
        let asset_id: Id = match Id::read(p) {
            Ok(x) => x,
            Err(e) => {
                return Err(e);
            },
        };
        let out: Output = match Output::read(p) {
            Ok(x) => x,
            Err(e) => {
                return Err(e);
            },
        };
        Ok(TransferableOutput { asset_id, out })
    }
}

/// An input of some asset, and the output that it spends.
#[derive(Debug, PartialEq, Eq)]
pub struct TransferableInput {
    /// The transaction that made the output.
    pub tx_id: Id,
    /// Which of its outputs is spent.
    pub output_index: u32,
    /// The asset.
    pub asset_id: Id,
    /// The input.
    pub input: Input,
}

/// What a [`TransferableInput`] holds.
#[verifier::ext_equal]
pub struct TransferableInputView {
    /// The transaction that made the output.
    pub tx_id: Seq<u8>,
    /// Which of its outputs is spent.
    pub output_index: u32,
    /// The asset.
    pub asset_id: Seq<u8>,
    /// The input.
    pub input: InputView,
}

impl View for TransferableInput {
    type V = TransferableInputView;

    open spec fn view(&self) -> TransferableInputView {
        TransferableInputView {
            tx_id: self.tx_id@,
            output_index: self.output_index@,
            asset_id: self.asset_id@,
            input: self.input@,
        }
    }
}

impl Dup for TransferableInput {
    fn dup(&self) -> (r: TransferableInput) {
        TransferableInput {
            tx_id: self.tx_id.dup(),
            output_index: self.output_index.dup(),
            asset_id: self.asset_id.dup(),
            input: self.input.dup(),
        }
    }
}

/// Whether every length of a [`TransferableInput`] fits its field.
#[verifier::opaque]
pub open spec fn transferable_input_fits(v: TransferableInputView) -> bool {
    &&& Id::fits(v.tx_id)
    &&& u32::fits(v.output_index)
    &&& Id::fits(v.asset_id)
    &&& Input::fits(v.input)
}

/// The fields of a [`TransferableInput`], in the order in which they are written.
#[verifier::opaque]
pub open spec fn transferable_input_ser(v: TransferableInputView) -> Seq<u8> {
    Id::ser(v.tx_id) + (u32::ser(v.output_index) + (Id::ser(v.asset_id) + (Input::ser(v.input))))
}

/// The fields of a [`TransferableInput`] at the start of `s`, and what follows.
#[verifier::opaque]
pub open spec fn transferable_input_de(s: Seq<u8>) -> Read<TransferableInputView> {
    match Id::de(s) {
        Err(e) => Err(e),
        Ok((tx_id, s)) =>
    match u32::de(s) {
        Err(e) => Err(e),
        Ok((output_index, s)) =>
    match Id::de(s) {
        Err(e) => Err(e),
        Ok((asset_id, s)) =>
    match Input::de(s) {
        Err(e) => Err(e),
        Ok((input, s)) =>
        Ok((TransferableInputView { tx_id, output_index, asset_id, input }, s)),
    },},},}
}

impl Wire for TransferableInput {
    open spec fn fits(v: TransferableInputView) -> bool {
        transferable_input_fits(v)
    }

    open spec fn ser(v: TransferableInputView) -> Seq<u8> {
        transferable_input_ser(v)
    }

    open spec fn de(s: Seq<u8>) -> Read<TransferableInputView> {
        transferable_input_de(s)
    }

    proof fn round_trip(v: TransferableInputView, t: Seq<u8>) {
        reveal(transferable_input_fits);
        reveal(transferable_input_ser);
        reveal(transferable_input_de);
        let r3 = Input::ser(v.input);
        Input::round_trip(v.input, t);
        lemma_concat(Id::ser(v.asset_id), r3, t);
        Id::round_trip(v.asset_id, r3 + t);
        let r2 = Id::ser(v.asset_id) + r3;
        lemma_concat(u32::ser(v.output_index), r2, t);
        u32::round_trip(v.output_index, r2 + t);
        let r1 = u32::ser(v.output_index) + r2;
        lemma_concat(Id::ser(v.tx_id), r1, t);
        Id::round_trip(v.tx_id, r1 + t);
    }

    proof fn canonical(s: Seq<u8>) {
        reveal(transferable_input_fits);
        reveal(transferable_input_ser);
        reveal(transferable_input_de);
        if let Ok((v, t)) = Self::de(s) {
            Id::canonical(s);
            let s1 = (Id::de(s)->Ok_0).1;
            u32::canonical(s1);
            let s2 = (u32::de(s1)->Ok_0).1;
            Id::canonical(s2);
            let s3 = (Id::de(s2)->Ok_0).1;
            Input::canonical(s3);
            let r3 = Input::ser(v.input);
            lemma_concat(Id::ser(v.asset_id), r3, t);
            let r2 = Id::ser(v.asset_id) + r3;
            lemma_concat(u32::ser(v.output_index), r2, t);
            let r1 = u32::ser(v.output_index) + r2;
            lemma_concat(Id::ser(v.tx_id), r1, t);
        }
    }

    fn can_write(&self) -> (r: bool) {
        proof {
            reveal(transferable_input_fits);
        }
        self.tx_id.can_write() && self.output_index.can_write() && self.asset_id.can_write() && self.input.can_write()
    }

    fn write(&self, out: &mut Vec<u8>) {
        proof {
            reveal(transferable_input_fits);
            reveal(transferable_input_ser);
        }
        self.tx_id.write(out);
        self.output_index.write(out);
        self.asset_id.write(out);
        self.input.write(out);
        proof {
            let r3 = Input::ser(self.input@);
            lemma_concat(((old(out)@ + Id::ser(self.tx_id@)) + u32::ser(self.output_index@)), Id::ser(self.asset_id@), r3);
            let r2 = Id::ser(self.asset_id@) + r3;
            lemma_concat((old(out)@ + Id::ser(self.tx_id@)), u32::ser(self.output_index@), r2);
            let r1 = u32::ser(self.output_index@) + r2;
            lemma_concat(old(out)@, Id::ser(self.tx_id@), r1);
        }
    }

    fn read(p: &mut Reader<'_>) -> (r: Result<TransferableInput, CodecError>) {
        proof {
            reveal(transferable_input_de);
        }
        let tx_id: Id = match Id::read(p) {
            Ok(x) => x,
            Err(e) => {
                return Err(e);
            },
        };
        let output_index: u32 = match u32::read(p) {
            Ok(x) => x,
            Err(e) => {
                return Err(e);
            },
        };
        let asset_id: Id = match Id::read(p) {
            Ok(x) => x,
            Err(e) => {
                return Err(e);
            },
        };
        let input: Input = match Input::read(p) {
            Ok(x) => x,
            Err(e) => {
                return Err(e);
            },
        };
        Ok(TransferableInput { tx_id, output_index, asset_id, input })
    }
}

/// What most transactions have in common.
#[derive(Debug, PartialEq, Eq)]
pub struct BaseTx {
    /// The network.
    pub network_id: u32,
    /// The chain.
    pub blockchain_id: Id,
    /// The outputs.
    pub outs: List<TransferableOutput>,
    /// The inputs.
    pub ins: List<TransferableInput>,
    /// Any bytes.
    pub memo: Vec<u8>,
}

/// What a [`BaseTx`] holds.
#[verifier::ext_equal]
pub struct BaseTxView {
    /// The network.
    pub network_id: u32,
    /// The chain.
    pub blockchain_id: Seq<u8>,
    /// The outputs.
    pub outs: Seq<TransferableOutputView>,
    /// The inputs.
    pub ins: Seq<TransferableInputView>,
    /// Any bytes.
    pub memo: Seq<u8>,
}

impl View for BaseTx {
    type V = BaseTxView;

    open spec fn view(&self) -> BaseTxView {
        BaseTxView {
            network_id: self.network_id@,
            blockchain_id: self.blockchain_id@,
            outs: self.outs@,
            ins: self.ins@,
            memo: self.memo@,
        }
    }
}

impl Dup for BaseTx {
    fn dup(&self) -> (r: BaseTx) {
        BaseTx {
            network_id: self.network_id.dup(),
            blockchain_id: self.blockchain_id.dup(),
            outs: self.outs.dup(),
            ins: self.ins.dup(),
            memo: self.memo.dup(),
        }
    }
}

/// Whether every length of a [`BaseTx`] fits its field.
#[verifier::opaque]
pub open spec fn base_tx_fits(v: BaseTxView) -> bool {
    &&& u32::fits(v.network_id)
    &&& Id::fits(v.blockchain_id)
    &&& List::<TransferableOutput>::fits(v.outs)
    &&& List::<TransferableInput>::fits(v.ins)
    &&& Vec::<u8>::fits(v.memo)
}

/// The fields of a [`BaseTx`], in the order in which they are written.
#[verifier::opaque]
pub open spec fn base_tx_ser(v: BaseTxView) -> Seq<u8> {
    u32::ser(v.network_id) + (Id::ser(v.blockchain_id) + (List::<TransferableOutput>::ser(v.outs) + (List::<TransferableInput>::ser(v.ins) + (Vec::<u8>::ser(v.memo)))))
}

/// The fields of a [`BaseTx`] at the start of `s`, and what follows.
#[verifier::opaque]
pub open spec fn base_tx_de(s: Seq<u8>) -> Read<BaseTxView> {
    match u32::de(s) {
        Err(e) => Err(e),
        Ok((network_id, s)) =>
    match Id::de(s) {
        Err(e) => Err(e),
        Ok((blockchain_id, s)) =>
    match List::<TransferableOutput>::de(s) {
        Err(e) => Err(e),
        Ok((outs, s)) =>
    match List::<TransferableInput>::de(s) {
        Err(e) => Err(e),
        Ok((ins, s)) =>
    match Vec::<u8>::de(s) {
        Err(e) => Err(e),
        Ok((memo, s)) =>
        Ok((BaseTxView { network_id, blockchain_id, outs, ins, memo }, s)),
    },},},},}
}

impl Wire for BaseTx {
    open spec fn fits(v: BaseTxView) -> bool {
        base_tx_fits(v)
    }

    open spec fn ser(v: BaseTxView) -> Seq<u8> {
        base_tx_ser(v)
    }

    open spec fn de(s: Seq<u8>) -> Read<BaseTxView> {
        base_tx_de(s)
    }

    proof fn round_trip(v: BaseTxView, t: Seq<u8>) {
        reveal(base_tx_fits);
        reveal(base_tx_ser);
        reveal(base_tx_de);
        let r4 = Vec::<u8>::ser(v.memo);
        Vec::<u8>::round_trip(v.memo, t);
        lemma_concat(List::<TransferableInput>::ser(v.ins), r4, t);
        List::<TransferableInput>::round_trip(v.ins, r4 + t);
        let r3 = List::<TransferableInput>::ser(v.ins) + r4;
        lemma_concat(List::<TransferableOutput>::ser(v.outs), r3, t);
        List::<TransferableOutput>::round_trip(v.outs, r3 + t);
        let r2 = List::<TransferableOutput>::ser(v.outs) + r3;
        lemma_concat(Id::ser(v.blockchain_id), r2, t);
        Id::round_trip(v.blockchain_id, r2 + t);
        let r1 = Id::ser(v.blockchain_id) + r2;
        lemma_concat(u32::ser(v.network_id), r1, t);
        u32::round_trip(v.network_id, r1 + t);
    }

    proof fn canonical(s: Seq<u8>) {
        reveal(base_tx_fits);
        reveal(base_tx_ser);
        reveal(base_tx_de);
        if let Ok((v, t)) = Self::de(s) {
            u32::canonical(s);
            let s1 = (u32::de(s)->Ok_0).1;
            Id::canonical(s1);
            let s2 = (Id::de(s1)->Ok_0).1;
            List::<TransferableOutput>::canonical(s2);
            let s3 = (List::<TransferableOutput>::de(s2)->Ok_0).1;
            List::<TransferableInput>::canonical(s3);
            let s4 = (List::<TransferableInput>::de(s3)->Ok_0).1;
            Vec::<u8>::canonical(s4);
            let r4 = Vec::<u8>::ser(v.memo);
            lemma_concat(List::<TransferableInput>::ser(v.ins), r4, t);
            let r3 = List::<TransferableInput>::ser(v.ins) + r4;
            lemma_concat(List::<TransferableOutput>::ser(v.outs), r3, t);
            let r2 = List::<TransferableOutput>::ser(v.outs) + r3;
            lemma_concat(Id::ser(v.blockchain_id), r2, t);
            let r1 = Id::ser(v.blockchain_id) + r2;
            lemma_concat(u32::ser(v.network_id), r1, t);
        }
    }

    fn can_write(&self) -> (r: bool) {
        proof {
            reveal(base_tx_fits);
        }
        self.network_id.can_write() && self.blockchain_id.can_write() && self.outs.can_write() && self.ins.can_write() && self.memo.can_write()
    }

    fn write(&self, out: &mut Vec<u8>) {
        proof {
            reveal(base_tx_fits);
            reveal(base_tx_ser);
        }
        self.network_id.write(out);
        self.blockchain_id.write(out);
        self.outs.write(out);
        self.ins.write(out);
        self.memo.write(out);
        proof {
            let r4 = Vec::<u8>::ser(self.memo@);
            lemma_concat((((old(out)@ + u32::ser(self.network_id@)) + Id::ser(self.blockchain_id@)) + List::<TransferableOutput>::ser(self.outs@)), List::<TransferableInput>::ser(self.ins@), r4);
            let r3 = List::<TransferableInput>::ser(self.ins@) + r4;
            lemma_concat(((old(out)@ + u32::ser(self.network_id@)) + Id::ser(self.blockchain_id@)), List::<TransferableOutput>::ser(self.outs@), r3);
            let r2 = List::<TransferableOutput>::ser(self.outs@) + r3;
            lemma_concat((old(out)@ + u32::ser(self.network_id@)), Id::ser(self.blockchain_id@), r2);
            let r1 = Id::ser(self.blockchain_id@) + r2;
            lemma_concat(old(out)@, u32::ser(self.network_id@), r1);
        }
    }

    fn read(p: &mut Reader<'_>) -> (r: Result<BaseTx, CodecError>) {
        proof {
            reveal(base_tx_de);
        }
        let network_id: u32 = match u32::read(p) {
            Ok(x) => x,
            Err(e) => {
                return Err(e);
            },
        };
        let blockchain_id: Id = match Id::read(p) {
            Ok(x) => x,
            Err(e) => {
                return Err(e);
            },
        };
        let outs: List<TransferableOutput> = match List::<TransferableOutput>::read(p) {
            Ok(x) => x,
            Err(e) => {
                return Err(e);
            },
        };
        let ins: List<TransferableInput> = match List::<TransferableInput>::read(p) {
            Ok(x) => x,
            Err(e) => {
                return Err(e);
            },
        };
        let memo: Vec<u8> = match Vec::<u8>::read(p) {
            Ok(x) => x,
            Err(e) => {
                return Err(e);
            },
        };
        Ok(BaseTx { network_id, blockchain_id, outs, ins, memo })
    }
}

/// The owner of a reward or a subnet.
#[derive(Debug, PartialEq, Eq)]
pub enum Owner {
    /// Holders of keys.
    Secp256k1(OutputOwners),
}

/// What an [`Owner`] holds.
#[verifier::ext_equal]
pub enum OwnerView {
    /// Holders of keys.
    Secp256k1(OutputOwnersView),
}

impl View for Owner {
    type V = OwnerView;

    open spec fn view(&self) -> OwnerView {
        match self {
            Owner::Secp256k1(x) => OwnerView::Secp256k1(x@),
        }
    }
}

impl Dup for Owner {
    fn dup(&self) -> (r: Owner) {
        match self {
            Owner::Secp256k1(x) => Owner::Secp256k1(x.dup()),
        }
    }
}

impl OwnerView {
    /// The type id in front of the value.
    pub open spec fn type_id(self) -> u32 {
        match self {
            OwnerView::Secp256k1(_) => 11,
        }
    }
}

impl Owner {
    /// The type id in front of the value.
    pub fn codec_type_id(&self) -> (r: u32)
        ensures
            r == self@.type_id(),
    {
        match self {
            Owner::Secp256k1(_) => 11,
        }
    }
}

/// Whether every length of the value fits its field.
#[verifier::opaque]
pub open spec fn owner_fits(v: OwnerView) -> bool {
    match v {
        OwnerView::Secp256k1(x) => OutputOwners::fits(x),
    }
}

/// The type id, and the value that it is the type of.
#[verifier::opaque]
pub open spec fn owner_ser(v: OwnerView) -> Seq<u8> {
    be(v.type_id() as nat, 4) + match v {
        OwnerView::Secp256k1(x) => OutputOwners::ser(x),
    }
}

/// The value at the start of `s`, and what follows.
#[verifier::opaque]
pub open spec fn owner_de(s: Seq<u8>) -> Read<OwnerView> {
    match rd_be(s, 4) {
        None => Err(CodecError::InsufficientLength),
        Some((id, s)) => 
        if id == 11 {
            match OutputOwners::de(s) {
                Err(e) => Err(e),
                Ok((x, t)) => Ok((OwnerView::Secp256k1(x), t)),
            }
        } else 
        {
            Err(CodecError::UnknownTypeId)
        },
    }
}

impl Wire for Owner {
    open spec fn fits(v: OwnerView) -> bool {
        owner_fits(v)
    }

    open spec fn ser(v: OwnerView) -> Seq<u8> {
        owner_ser(v)
    }

    open spec fn de(s: Seq<u8>) -> Read<OwnerView> {
        owner_de(s)
    }

    proof fn round_trip(v: OwnerView, t: Seq<u8>) {
        reveal(owner_fits);
        reveal(owner_ser);
        reveal(owner_de);
        lemma_pow256();
        match v {
            OwnerView::Secp256k1(x) => {
                lemma_rd_be(11, 4, OutputOwners::ser(x) + t);
                lemma_concat(be(11, 4), OutputOwners::ser(x), t);
                OutputOwners::round_trip(x, t);
            },
        }
    }

    proof fn canonical(s: Seq<u8>) {
        reveal(owner_fits);
        reveal(owner_ser);
        reveal(owner_de);
        lemma_rd_be_sound(s, 4);
        if let Ok((v, t)) = Self::de(s) {
            let u = (rd_be(s, 4)->0).1;
            match v {
                OwnerView::Secp256k1(x) => {
                    OutputOwners::canonical(u);
                    lemma_concat(be(11, 4), OutputOwners::ser(x), t);
                },
            }
        }
    }

    fn can_write(&self) -> (r: bool) {
        proof {
            reveal(owner_fits);
        }
        match self {
            Owner::Secp256k1(x) => x.can_write(),
        }
    }

    fn write(&self, out: &mut Vec<u8>) {
        proof {
            reveal(owner_fits);
            reveal(owner_ser);
        }
        push_u32(out, self.codec_type_id());
        match self {
            Owner::Secp256k1(x) => {
                x.write(out);
                proof {
                    lemma_concat(old(out)@, be(11, 4), OutputOwners::ser(x@));
                }
            },
        }
    }

    fn read(p: &mut Reader<'_>) -> (r: Result<Owner, CodecError>) {
        proof {
            reveal(owner_de);
        }
        let id: u32 = match p.take_u32() {
            Some(id) => id,
            None => {
                return Err(CodecError::InsufficientLength);
            },
        };
        if id == 11 {
            match OutputOwners::read(p) {
                Ok(x) => Ok(Owner::Secp256k1(x)),
                Err(e) => Err(e),
            }
        }
        else {
            Err(CodecError::UnknownTypeId)
        }
    }
}

/// Which addresses of an owner sign.
#[derive(Debug, PartialEq, Eq)]
pub struct SigIndices {
    /// The places of the addresses.
    pub sig_indices: List<u32>,
}

/// What a [`SigIndices`] holds.
#[verifier::ext_equal]
pub struct SigIndicesView {
    /// The places of the addresses.
    pub sig_indices: Seq<u32>,
}

impl View for SigIndices {
    type V = SigIndicesView;

    open spec fn view(&self) -> SigIndicesView {
        SigIndicesView {
            sig_indices: self.sig_indices@,
        }
    }
}

impl Dup for SigIndices {
    fn dup(&self) -> (r: SigIndices) {
        SigIndices {
            sig_indices: self.sig_indices.dup(),
        }
    }
}

/// Whether every length of a [`SigIndices`] fits its field.
#[verifier::opaque]
pub open spec fn sig_indices_fits(v: SigIndicesView) -> bool {
    &&& List::<u32>::fits(v.sig_indices)
}

/// The fields of a [`SigIndices`], in the order in which they are written.
#[verifier::opaque]
pub open spec fn sig_indices_ser(v: SigIndicesView) -> Seq<u8> {
    List::<u32>::ser(v.sig_indices)
}

/// The fields of a [`SigIndices`] at the start of `s`, and what follows.
#[verifier::opaque]
pub open spec fn sig_indices_de(s: Seq<u8>) -> Read<SigIndicesView> {
    match List::<u32>::de(s) {
        Err(e) => Err(e),
        Ok((sig_indices, s)) =>
        Ok((SigIndicesView { sig_indices }, s)),
    }
}

impl Wire for SigIndices {
    open spec fn fits(v: SigIndicesView) -> bool {
        sig_indices_fits(v)
    }

    open spec fn ser(v: SigIndicesView) -> Seq<u8> {
        sig_indices_ser(v)
    }

    open spec fn de(s: Seq<u8>) -> Read<SigIndicesView> {
        sig_indices_de(s)
    }

    proof fn round_trip(v: SigIndicesView, t: Seq<u8>) {
        reveal(sig_indices_fits);
        reveal(sig_indices_ser);
        reveal(sig_indices_de);
        List::<u32>::round_trip(v.sig_indices, t);
    }

    proof fn canonical(s: Seq<u8>) {
        reveal(sig_indices_fits);
        reveal(sig_indices_ser);
        reveal(sig_indices_de);
        if let Ok((v, t)) = Self::de(s) {
            List::<u32>::canonical(s);
        }
    }

    fn can_write(&self) -> (r: bool) {
        proof {
            reveal(sig_indices_fits);
        }
        self.sig_indices.can_write()
    }

    fn write(&self, out: &mut Vec<u8>) {
        proof {
            reveal(sig_indices_fits);
            reveal(sig_indices_ser);
        }
        self.sig_indices.write(out);
    }

    fn read(p: &mut Reader<'_>) -> (r: Result<SigIndices, CodecError>) {
        proof {
            reveal(sig_indices_de);
        }
        let sig_indices: List<u32> = match List::<u32>::read(p) {
            Ok(x) => x,
            Err(e) => {
                return Err(e);
            },
        };
        Ok(SigIndices { sig_indices })
    }
}

/// The authorization to act for a subnet.
#[derive(Debug, PartialEq, Eq)]
pub enum Auth {
    /// Holders of keys.
    Secp256k1(SigIndices),
}

/// What an [`Auth`] holds.
#[verifier::ext_equal]
pub enum AuthView {
    /// Holders of keys.
    Secp256k1(SigIndicesView),
}

impl View for Auth {
    type V = AuthView;

    open spec fn view(&self) -> AuthView {
        match self {
            Auth::Secp256k1(x) => AuthView::Secp256k1(x@),
        }
    }
}

impl Dup for Auth {
    fn dup(&self) -> (r: Auth) {
        match self {
            Auth::Secp256k1(x) => Auth::Secp256k1(x.dup()),
        }
    }
}

impl AuthView {
    /// The type id in front of the value.
    pub open spec fn type_id(self) -> u32 {
        match self {
            AuthView::Secp256k1(_) => 10,
        }
    }
}

impl Auth {
    /// The type id in front of the value.
    pub fn codec_type_id(&self) -> (r: u32)
        ensures
            r == self@.type_id(),
    {
        match self {
            Auth::Secp256k1(_) => 10,
        }
    }
}

/// Whether every length of the value fits its field.
#[verifier::opaque]
pub open spec fn auth_fits(v: AuthView) -> bool {
    match v {
        AuthView::Secp256k1(x) => SigIndices::fits(x),
    }
}

/// The type id, and the value that it is the type of.
#[verifier::opaque]
pub open spec fn auth_ser(v: AuthView) -> Seq<u8> {
    be(v.type_id() as nat, 4) + match v {
        AuthView::Secp256k1(x) => SigIndices::ser(x),
    }
}

/// The value at the start of `s`, and what follows.
#[verifier::opaque]
pub open spec fn auth_de(s: Seq<u8>) -> Read<AuthView> {
    match rd_be(s, 4) {
        None => Err(CodecError::InsufficientLength),
        Some((id, s)) => 
        if id == 10 {
            match SigIndices::de(s) {
                Err(e) => Err(e),
                Ok((x, t)) => Ok((AuthView::Secp256k1(x), t)),
            }
        } else 
        {
            Err(CodecError::UnknownTypeId)
        },
    }
}

impl Wire for Auth {
    open spec fn fits(v: AuthView) -> bool {
        auth_fits(v)
    }

    open spec fn ser(v: AuthView) -> Seq<u8> {
        auth_ser(v)
    }

    open spec fn de(s: Seq<u8>) -> Read<AuthView> {
        auth_de(s)
    }

    proof fn round_trip(v: AuthView, t: Seq<u8>) {
        reveal(auth_fits);
        reveal(auth_ser);
        reveal(auth_de);
        lemma_pow256();
        match v {
            AuthView::Secp256k1(x) => {
                lemma_rd_be(10, 4, SigIndices::ser(x) + t);
                lemma_concat(be(10, 4), SigIndices::ser(x), t);
                SigIndices::round_trip(x, t);
            },
        }
    }

    proof fn canonical(s: Seq<u8>) {
        reveal(auth_fits);
        reveal(auth_ser);
        reveal(auth_de);
        lemma_rd_be_sound(s, 4);
        if let Ok((v, t)) = Self::de(s) {
            let u = (rd_be(s, 4)->0).1;
            match v {
                AuthView::Secp256k1(x) => {
                    SigIndices::canonical(u);
                    lemma_concat(be(10, 4), SigIndices::ser(x), t);
                },
            }
        }
    }

    fn can_write(&self) -> (r: bool) {
        proof {
            reveal(auth_fits);
        }
        match self {
            Auth::Secp256k1(x) => x.can_write(),
        }
    }

    fn write(&self, out: &mut Vec<u8>) {
        proof {
            reveal(auth_fits);
            reveal(auth_ser);
        }
        push_u32(out, self.codec_type_id());
        match self {
            Auth::Secp256k1(x) => {
                x.write(out);
                proof {
                    lemma_concat(old(out)@, be(10, 4), SigIndices::ser(x@));
                }
            },
        }
    }

    fn read(p: &mut Reader<'_>) -> (r: Result<Auth, CodecError>) {
        proof {
            reveal(auth_de);
        }
        let id: u32 = match p.take_u32() {
            Some(id) => id,
            None => {
                return Err(CodecError::InsufficientLength);
            },
        };
        if id == 10 {
            match SigIndices::read(p) {
                Ok(x) => Ok(Auth::Secp256k1(x)),
                Err(e) => Err(e),
            }
        }
        else {
            Err(CodecError::UnknownTypeId)
        }
    }
}

} // verus!
