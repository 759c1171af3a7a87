//! Prices that follow from an excess.
use vstd::prelude::*;

verus! {

/// Knows the price at an excess.
pub trait Pricing {
    /// The price at `excess`: `min_price` where there is none, and the steeper
    /// above it the smaller `k` is.
    fn calculate_price(&self, min_price: u64, excess: u64, k: u64) -> u64;
}

/// What the prices follow from besides the excess.
#[derive(Clone, Copy, Debug, PartialEq, Eq)]
pub struct FeeConstants {
    /// The least price of gas.
    pub gas_min_price: u64,
    /// How the excess of gas sets its price.
    pub gas_k: u64,
    /// The least price that L1 validators pay.
    pub validator_min_price: u64,
    /// How the excess of L1 validators sets their price on the main network.
    pub validator_k_mainnet: u64,
    /// How it does on the test network.
    pub validator_k_fuji: u64,
}

impl FeeConstants {
    /// How the excess of L1 validators sets their price on `network`: on any but
    /// the test network as on the main one.
    pub open spec fn validator_k(self, network: u32) -> u64 {
        if network == 5 {
            self.validator_k_fuji
        } else {
            self.validator_k_mainnet
        }
    }
}

} // verus!
