//! The virtual machine of the chain.
use vstd::prelude::*;

use crate::state::state::State;

verus! {

/// The virtual machine. It has no state until it is initialized.
pub struct PlatformVm {
    state: Option<State>,
}

impl PlatformVm {
    /// The state, once the machine was initialized.
    pub closed spec fn state(&self) -> Option<State> {
        self.state
    }

    /// A machine that was not initialized yet.
    pub fn new() -> (r: PlatformVm)
        ensures
            r.state() is None,
    {
        PlatformVm { state: None }
    }

    /// The state that validators are read from, once the machine was
    /// initialized.
    pub fn validator_state(&self) -> (r: Option<&State>)
        ensures
            match self.state() {
                Some(s) => r == Some(&s),
                None => r is None,
            },
    {
        match &self.state {
            Some(s) => Some(s),
            None => None,
        }
    }
}

} // verus!
