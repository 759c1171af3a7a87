//! Transactions that move value between chains, and time forward.
use vstd::prelude::*;

use crate::codec::{lemma_concat, CodecError, Reader};
use crate::collections::ordmap::Dup;
use crate::ids::Id;
use crate::txs::components::{BaseTx, BaseTxView, TransferableInput, TransferableInputView, TransferableOutput, TransferableOutputView};
use crate::wire::{List, Read, Wire};

verus! {

/// Moves value from another chain.
#[derive(Debug, PartialEq, Eq)]
pub struct ImportTx {
    /// What most transactions have in common.
    pub base: BaseTx,
    /// The chain that the value comes from.
    pub source_chain: Id,
    /// What is spent there.
    pub imported_inputs: List<TransferableInput>,
}

/// What an [`ImportTx`] holds.
#[verifier::ext_equal]
pub struct ImportTxView {
    /// What most transactions have in common.
    pub base: BaseTxView,
    /// The chain that the value comes from.
    pub source_chain: Seq<u8>,
    /// What is spent there.
    pub imported_inputs: Seq<TransferableInputView>,
}

impl View for ImportTx {
    type V = ImportTxView;

    open spec fn view(&self) -> ImportTxView {
        ImportTxView {
            base: self.base@,
            source_chain: self.source_chain@,
            imported_inputs: self.imported_inputs@,
        }
    }
}

impl Dup for ImportTx {
    fn dup(&self) -> (r: ImportTx) {
        ImportTx {
            base: self.base.dup(),
            source_chain: self.source_chain.dup(),
            imported_inputs: self.imported_inputs.dup(),
        }
    }
}

/// Whether every length of a [`ImportTx`] fits its field.
#[verifier::opaque]
pub open spec fn import_tx_fits(v: ImportTxView) -> bool {
    &&& BaseTx::fits(v.base)
    &&& Id::fits(v.source_chain)
    &&& List::<TransferableInput>::fits(v.imported_inputs)
}

/// The fields of a [`ImportTx`], in the order in which they are written.
#[verifier::opaque]
pub open spec fn import_tx_ser(v: ImportTxView) -> Seq<u8> {
    BaseTx::ser(v.base) + (Id::ser(v.source_chain) + (List::<TransferableInput>::ser(v.imported_inputs)))
}

/// The fields of a [`ImportTx`] at the start of `s`, and what follows.
#[verifier::opaque]
pub open spec fn import_tx_de(s: Seq<u8>) -> Read<ImportTxView> {
    match BaseTx::de(s) {
        Err(e) => Err(e),
        Ok((base, s)) =>
    match Id::de(s) {
        Err(e) => Err(e),
        Ok((source_chain, s)) =>
    match List::<TransferableInput>::de(s) {
        Err(e) => Err(e),
        Ok((imported_inputs, s)) =>
        Ok((ImportTxView { base, source_chain, imported_inputs }, s)),
    },},}
}

impl Wire for ImportTx {
    open spec fn fits(v: ImportTxView) -> bool {
        import_tx_fits(v)
    }

    open spec fn ser(v: ImportTxView) -> Seq<u8> {
        import_tx_ser(v)
    }

    open spec fn de(s: Seq<u8>) -> Read<ImportTxView> {
        import_tx_de(s)
    }

    proof fn round_trip(v: ImportTxView, t: Seq<u8>) {
        reveal(import_tx_fits);
        reveal(import_tx_ser);
        reveal(import_tx_de);
        let r2 = List::<TransferableInput>::ser(v.imported_inputs);
        List::<TransferableInput>::round_trip(v.imported_inputs, t);
        lemma_concat(Id::ser(v.source_chain), r2, t);
        Id::round_trip(v.source_chain, r2 + t);
        let r1 = Id::ser(v.source_chain) + r2;
        lemma_concat(BaseTx::ser(v.base), r1, t);
        BaseTx::round_trip(v.base, r1 + t);
    }

    proof fn canonical(s: Seq<u8>) {
        reveal(import_tx_fits);
        reveal(import_tx_ser);
        reveal(import_tx_de);
        if let Ok((v, t)) = Self::de(s) {
            BaseTx::canonical(s);
            let s1 = (BaseTx::de(s)->Ok_0).1;
            Id::canonical(s1);
            let s2 = (Id::de(s1)->Ok_0).1;
            List::<TransferableInput>::canonical(s2);
            let r2 = List::<TransferableInput>::ser(v.imported_inputs);
            lemma_concat(Id::ser(v.source_chain), r2, t);
            let r1 = Id::ser(v.source_chain) + r2;
            lemma_concat(BaseTx::ser(v.base), r1, t);
        }
    }

    fn can_write(&self) -> (r: bool) {
        proof {
            reveal(import_tx_fits);
        }
        self.base.can_write() && self.source_chain.can_write() && self.imported_inputs.can_write()
    }

    fn write(&self, out: &mut Vec<u8>) {
        proof {
            reveal(import_tx_fits);
            reveal(import_tx_ser);
        }
        self.base.write(out);
        self.source_chain.write(out);
        self.imported_inputs.write(out);
        proof {
            let r2 = List::<TransferableInput>::ser(self.imported_inputs@);
            lemma_concat((old(out)@ + BaseTx::ser(self.base@)), Id::ser(self.source_chain@), r2);
            let r1 = Id::ser(self.source_chain@) + r2;
            lemma_concat(old(out)@, BaseTx::ser(self.base@), r1);
        }
    }

    fn read(p: &mut Reader<'_>) -> (r: Result<ImportTx, CodecError>) {
        proof {
            reveal(import_tx_de);
        }
        let base: BaseTx = match BaseTx::read(p) {
            Ok(x) => x,
            Err(e) => {
                return Err(e);
            },
        };
        let source_chain: Id = match Id::read(p) {
            Ok(x) => x,
            Err(e) => {
                return Err(e);
            },
        };
        let imported_inputs: List<TransferableInput> = match List::<TransferableInput>::read(p) {
            Ok(x) => x,
            Err(e) => {
                return Err(e);
            },
        };
        Ok(ImportTx { base, source_chain, imported_inputs })
    }
}

/// Moves value to another chain.
#[derive(Debug, PartialEq, Eq)]
pub struct ExportTx {
    /// What most transactions have in common.
    pub base: BaseTx,
    /// The chain that the value goes to.
    pub destination_chain: Id,
    /// What is paid there.
    pub exported_outputs: List<TransferableOutput>,
}

/// What an [`ExportTx`] holds.
#[verifier::ext_equal]
pub struct ExportTxView {
    /// What most transactions have in common.
    pub base: BaseTxView,
    /// The chain that the value goes to.
    pub destination_chain: Seq<u8>,
    /// What is paid there.
    pub exported_outputs: Seq<TransferableOutputView>,
}

impl View for ExportTx {
    type V = ExportTxView;

    open spec fn view(&self) -> ExportTxView {
        ExportTxView {
            base: self.base@,
            destination_chain: self.destination_chain@,
            exported_outputs: self.exported_outputs@,
        }
    }
}

impl Dup for ExportTx {
    fn dup(&self) -> (r: ExportTx) {
        ExportTx {
            base: self.base.dup(),
            destination_chain: self.destination_chain.dup(),
            exported_outputs: self.exported_outputs.dup(),
        }
    }
}

/// Whether every length of a [`ExportTx`] fits its field.
#[verifier::opaque]
pub open spec fn export_tx_fits(v: ExportTxView) -> bool {
    &&& BaseTx::fits(v.base)
    &&& Id::fits(v.destination_chain)
    &&& List::<TransferableOutput>::fits(v.exported_outputs)
}

/// The fields of a [`ExportTx`], in the order in which they are written.
#[verifier::opaque]
pub open spec fn export_tx_ser(v: ExportTxView) -> Seq<u8> {
    BaseTx::ser(v.base) + (Id::ser(v.destination_chain) + (List::<TransferableOutput>::ser(v.exported_outputs)))
}

/// The fields of a [`ExportTx`] at the start of `s`, and what follows.
#[verifier::opaque]
pub open spec fn export_tx_de(s: Seq<u8>) -> Read<ExportTxView> {
    match BaseTx::de(s) {
        Err(e) => Err(e),
        Ok((base, s)) =>
    match Id::de(s) {
        Err(e) => Err(e),
        Ok((destination_chain, s)) =>
    match List::<TransferableOutput>::de(s) {
        Err(e) => Err(e),
        Ok((exported_outputs, s)) =>
        Ok((ExportTxView { base, destination_chain, exported_outputs }, s)),
    },},}
}

impl Wire for ExportTx {
    open spec fn fits(v: ExportTxView) -> bool {
        export_tx_fits(v)
    }

    open spec fn ser(v: ExportTxView) -> Seq<u8> {
        export_tx_ser(v)
    }

    open spec fn de(s: Seq<u8>) -> Read<ExportTxView> {
        export_tx_de(s)
    }

    proof fn round_trip(v: ExportTxView, t: Seq<u8>) {
        reveal(export_tx_fits);
        reveal(export_tx_ser);
        reveal(export_tx_de);
        let r2 = List::<TransferableOutput>::ser(v.exported_outputs);
        List::<TransferableOutput>::round_trip(v.exported_outputs, t);
        lemma_concat(Id::ser(v.destination_chain), r2, t);
        Id::round_trip(v.destination_chain, r2 + t);
        let r1 = Id::ser(v.destination_chain) + r2;
        lemma_concat(BaseTx::ser(v.base), r1, t);
        BaseTx::round_trip(v.base, r1 + t);
    }

    proof fn canonical(s: Seq<u8>) {
        reveal(export_tx_fits);
        reveal(export_tx_ser);
        reveal(export_tx_de);
        if let Ok((v, t)) = Self::de(s) {
            BaseTx::canonical(s);
            let s1 = (BaseTx::de(s)->Ok_0).1;
            Id::canonical(s1);
            let s2 = (Id::de(s1)->Ok_0).1;
            List::<TransferableOutput>::canonical(s2);
            let r2 = List::<TransferableOutput>::ser(v.exported_outputs);
            lemma_concat(Id::ser(v.destination_chain), r2, t);
            let r1 = Id::ser(v.destination_chain) + r2;
            lemma_concat(BaseTx::ser(v.base), r1, t);
        }
    }

    fn can_write(&self) -> (r: bool) {
        proof {
            reveal(export_tx_fits);
        }
        self.base.can_write() && self.destination_chain.can_write() && self.exported_outputs.can_write()
    }

    fn write(&self, out: &mut Vec<u8>) {
        proof {
            reveal(export_tx_fits);
            reveal(export_tx_ser);
        }
        self.base.write(out);
        self.destination_chain.write(out);
        self.exported_outputs.write(out);
        proof {
            let r2 = List::<TransferableOutput>::ser(self.exported_outputs@);
            lemma_concat((old(out)@ + BaseTx::ser(self.base@)), Id::ser(self.destination_chain@), r2);
            let r1 = Id::ser(self.destination_chain@) + r2;
            lemma_concat(old(out)@, BaseTx::ser(self.base@), r1);
        }
    }

    fn read(p: &mut Reader<'_>) -> (r: Result<ExportTx, CodecError>) {
        proof {
            reveal(export_tx_de);
        }
        let base: BaseTx = match BaseTx::read(p) {
            Ok(x) => x,
            Err(e) => {
                return Err(e);
            },
        };
        let destination_chain: Id = match Id::read(p) {
            Ok(x) => x,
            Err(e) => {
                return Err(e);
            },
        };
        let exported_outputs: List<TransferableOutput> = match List::<TransferableOutput>::read(p) {
            Ok(x) => x,
            Err(e) => {
                return Err(e);
            },
        };
        Ok(ExportTx { base, destination_chain, exported_outputs })
    }
}

/// Proposes to move the chain's time forward.
#[derive(Debug, PartialEq, Eq)]
pub struct AdvanceTimeTx {
    /// The time, in Unix seconds.
    pub time: u64,
}

/// What an [`AdvanceTimeTx`] holds.
#[verifier::ext_equal]
pub struct AdvanceTimeTxView {
    /// The time, in Unix seconds.
    pub time: u64,
}

impl View for AdvanceTimeTx {
    type V = AdvanceTimeTxView;

    open spec fn view(&self) -> AdvanceTimeTxView {
        AdvanceTimeTxView {
            time: self.time@,
        }
    }
}

impl Dup for AdvanceTimeTx {
    fn dup(&self) -> (r: AdvanceTimeTx) {
        AdvanceTimeTx {
            time: self.time.dup(),
        }
    }
}

/// Whether every length of a [`AdvanceTimeTx`] fits its field.
#[verifier::opaque]
pub open spec fn advance_time_tx_fits(v: AdvanceTimeTxView) -> bool {
    &&& u64::fits(v.time)
}

/// The fields of a [`AdvanceTimeTx`], in the order in which they are written.
#[verifier::opaque]
pub open spec fn advance_time_tx_ser(v: AdvanceTimeTxView) -> Seq<u8> {
    u64::ser(v.time)
}

/// The fields of a [`AdvanceTimeTx`] at the start of `s`, and what follows.
#[verifier::opaque]
pub open spec fn advance_time_tx_de(s: Seq<u8>) -> Read<AdvanceTimeTxView> {
    match u64::de(s) {
        Err(e) => Err(e),
        Ok((time, s)) =>
        Ok((AdvanceTimeTxView { time }, s)),
    }
}

impl Wire for AdvanceTimeTx {
    open spec fn fits(v: AdvanceTimeTxView) -> bool {
        advance_time_tx_fits(v)
    }

    open spec fn ser(v: AdvanceTimeTxView) -> Seq<u8> {
        advance_time_tx_ser(v)
    }

    open spec fn de(s: Seq<u8>) -> Read<AdvanceTimeTxView> {
        advance_time_tx_de(s)
    }

    proof fn round_trip(v: AdvanceTimeTxView, t: Seq<u8>) {
        reveal(advance_time_tx_fits);
        reveal(advance_time_tx_ser);
        reveal(advance_time_tx_de);
        u64::round_trip(v.time, t);
    }

    proof fn canonical(s: Seq<u8>) {
        reveal(advance_time_tx_fits);
        reveal(advance_time_tx_ser);
        reveal(advance_time_tx_de);
        if let Ok((v, t)) = Self::de(s) {
            u64::canonical(s);
        }
    }

    fn can_write(&self) -> (r: bool) {
        proof {
            reveal(advance_time_tx_fits);
        }
        self.time.can_write()
    }

    fn write(&self, out: &mut Vec<u8>) {
        proof {
            reveal(advance_time_tx_fits);
            reveal(advance_time_tx_ser);
        }
        self.time.write(out);
    }

    fn read(p: &mut Reader<'_>) -> (r: Result<AdvanceTimeTx, CodecError>) {
        proof {
            reveal(advance_time_tx_de);
        }
        let time: u64 = match u64::read(p) {
            Ok(x) => x,
            Err(e) => {
                return Err(e);
            },
        };
        Ok(AdvanceTimeTx { time })
    }
}

} // verus!
