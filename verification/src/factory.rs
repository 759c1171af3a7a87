//! Making virtual machines.
use vstd::prelude::*;

use crate::vm::PlatformVm;

verus! {

/// Makes virtual machines.
#[derive(Clone, Copy, Debug, Default)]
pub struct PlatformVmFactory;

impl PlatformVmFactory {
    /// A factory.
    pub fn new() -> PlatformVmFactory {
        PlatformVmFactory
    }

    /// A machine that was not initialized yet.
    pub fn new_vm(&self) -> (r: PlatformVm)
        ensures
            r.state() is None,
    {
        PlatformVm::new()
    }
}

} // verus!
