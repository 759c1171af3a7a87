//! The type ids of block bodies, which share their numbers with transactions.
use vstd::prelude::*;

verus! {

/// A proposal.
pub const TYPE_ID_APRICOT_PROPOSAL_BLOCK: u32 = 0;

/// An aborting option.
pub const TYPE_ID_APRICOT_ABORT_BLOCK: u32 = 1;

/// A committing option.
pub const TYPE_ID_APRICOT_COMMIT_BLOCK: u32 = 2;

/// Decided transactions.
pub const TYPE_ID_APRICOT_STANDARD_BLOCK: u32 = 3;

/// A transaction between chains.
pub const TYPE_ID_APRICOT_ATOMIC_BLOCK: u32 = 4;

/// A timed proposal.
pub const TYPE_ID_BANFF_PROPOSAL_BLOCK: u32 = 29;

/// A timed aborting option.
pub const TYPE_ID_BANFF_ABORT_BLOCK: u32 = 30;

/// A timed committing option.
pub const TYPE_ID_BANFF_COMMIT_BLOCK: u32 = 31;

/// Timed decided transactions.
pub const TYPE_ID_BANFF_STANDARD_BLOCK: u32 = 32;

} // verus!
