//! What rewards are calculated from.
use vstd::prelude::*;

verus! {

/// What shares and rates are parts of.
pub const PERCENT_DENOMINATOR: u64 = 1_000_000;

/// What rewards are calculated from.
#[derive(Clone, Copy, Debug, PartialEq, Eq, Structural)]
pub struct Config {
    /// The rate for a stake over the whole minting period.
    pub max_consumption_rate: u64,
    /// The rate for a stake over no time.
    pub min_consumption_rate: u64,
    /// The minting period, in nanoseconds.
    pub minting_period: u64,
    /// What the supply grows towards.
    pub supply_cap: u64,
}

impl Config {
    /// What the rewards of the primary network are calculated from.
    pub fn mainnet() -> (r: Config)
        ensures
            r == (Config {
                max_consumption_rate: 120_000,
                min_consumption_rate: 100_000,
                minting_period: 31_536_000_000_000_000,
                supply_cap: 720_000_000_000_000_000,
            }),
    {
        Config {
            max_consumption_rate: 120_000,
            min_consumption_rate: 100_000,
            minting_period: 31_536_000_000_000_000,
            supply_cap: 720_000_000_000_000_000,
        }
    }
}

} // verus!
