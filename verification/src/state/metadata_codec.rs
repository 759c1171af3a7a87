//! The versions under which validator metadata is written.
use vstd::prelude::*;

verus! {

/// The size of the version in front of a record.
pub const VERSION_SIZE: usize = 2;

/// The size of a `u64`.
pub const LONG_LEN: usize = 8;

/// The version with uptime and potential rewards.
pub const CODEC_VERSION_0: u16 = 0;

/// The version that adds the start of the staker's cycle.
pub const CODEC_VERSION_1: u16 = 1;

/// The version that adds what renewed stakers need.
pub const CODEC_VERSION_2: u16 = 2;

/// The size of a record from before the potential delegatee reward: the
/// version and three `u64`s.
pub const PRE_DELEGATEE_REWARD_SIZE: usize = VERSION_SIZE + 3 * LONG_LEN;

/// Whether `version` is one that records are written under.
pub fn is_registered_version(version: u16) -> (r: bool)
    ensures
        r == (version <= CODEC_VERSION_2),
{
    version == CODEC_VERSION_0 || version == CODEC_VERSION_1 || version == CODEC_VERSION_2
}

} // verus!
