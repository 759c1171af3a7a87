//! Outputs and inputs that may only be staked until some time.
use vstd::prelude::*;

use crate::error::{Error, Result};
use crate::txs::components::{input_failure, input_view, output_failure, output_view, valid_input, valid_output, Input, InputView, Output, OutputView};

verus! {

/// An output that may only be staked before `locktime`.
#[derive(Debug, PartialEq, Eq)]
pub struct LockOut {
    /// The Unix time at which the lock ends.
    pub locktime: u64,
    /// The output under the lock.
    pub transferable_out: Box<Output>,
}

/// An input that spends a locked output.
#[derive(Debug, PartialEq, Eq)]
pub struct LockIn {
    /// The Unix time at which the lock ends.
    pub locktime: u64,
    /// The input under the lock.
    pub transferable_in: Box<Input>,
}

impl LockOut {
    /// What the lock holds, as an output.
    pub open spec fn as_output(&self) -> OutputView {
        OutputView::StakeableLock(self.locktime, Box::new(output_view(*self.transferable_out)))
    }

    /// A locked output.
    pub fn new(locktime: u64, transferable_out: Output) -> (r: LockOut)
        ensures
            r.locktime == locktime,
            *r.transferable_out == transferable_out,
    {
        LockOut { locktime, transferable_out: Box::new(transferable_out) }
    }

    /// The amount under the lock.
    pub fn amount(&self) -> (r: u64)
        ensures
            r == self.transferable_out@.amount(),
    {
        self.transferable_out.amount()
    }

    /// Whether the lock is well formed: it has a time, it holds no other lock,
    /// and what it holds is well formed.
    pub fn verify(&self) -> (r: Result<()>)
        ensures
            r is Ok <==> valid_output(self.as_output()),
            r matches Err(e) ==> e == output_failure(self.as_output()),
    {
        if self.locktime == 0 {
            return Err(Error::InvalidLocktime);
        }
        if matches!(*self.transferable_out, Output::StakeableLock(_)) {
            return Err(Error::NestedStakeableLock);
        }
        self.transferable_out.verify()
    }
}

impl LockIn {
    /// What the lock holds, as an input.
    pub open spec fn as_input(&self) -> InputView {
        InputView::StakeableLock(self.locktime, Box::new(input_view(*self.transferable_in)))
    }

    /// A locked input.
    pub fn new(locktime: u64, transferable_in: Input) -> (r: LockIn)
        ensures
            r.locktime == locktime,
            *r.transferable_in == transferable_in,
    {
        LockIn { locktime, transferable_in: Box::new(transferable_in) }
    }

    /// The amount under the lock.
    pub fn amount(&self) -> (r: u64)
        ensures
            r == self.transferable_in@.amount(),
    {
        self.transferable_in.amount()
    }

    /// Whether the lock is well formed: it has a time, it holds no other lock,
    /// and what it holds is well formed.
    pub fn verify(&self) -> (r: Result<()>)
        ensures
            r is Ok <==> valid_input(self.as_input()),
            r matches Err(e) ==> e == input_failure(self.as_input()),
    {
        if self.locktime == 0 {
            return Err(Error::InvalidLocktime);
        }
        if matches!(*self.transferable_in, Input::StakeableLock(_)) {
            return Err(Error::NestedStakeableLock);
        }
        self.transferable_in.verify()
    }
}

} // verus!
