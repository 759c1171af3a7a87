//! How much a staker is rewarded with.
use vstd::prelude::*;

use crate::reward::big::{big, big_product, big_quotient, big_sum, big_value, biguint_to_u64};
use crate::reward::config::{Config, PERCENT_DENOMINATOR};

verus! {

/// Calculates rewards.
#[derive(Clone, Debug)]
pub struct Calculator {
    max_sub_min_consumption_rate: Vec<u32>,
    min_consumption_rate: Vec<u32>,
    minting_period: Vec<u32>,
    supply_cap: u64,
}

/// What a [`Calculator`] holds.
#[verifier::ext_equal]
pub struct CalculatorView {
    /// By how much the highest rate exceeds the lowest.
    pub max_sub_min_consumption_rate: nat,
    /// The lowest rate.
    pub min_consumption_rate: nat,
    /// The minting period.
    pub minting_period: nat,
    /// What the supply grows towards.
    pub supply_cap: u64,
}

impl View for Calculator {
    type V = CalculatorView;

    closed spec fn view(&self) -> CalculatorView {
        CalculatorView {
            max_sub_min_consumption_rate: big_value(self.max_sub_min_consumption_rate@),
            min_consumption_rate: big_value(self.min_consumption_rate@),
            minting_period: big_value(self.minting_period@),
            supply_cap: self.supply_cap,
        }
    }
}

/// `a - b`, or 0 where `b` is greater.
pub open spec fn less(a: nat, b: nat) -> nat {
    if a < b {
        0
    } else {
        (a - b) as nat
    }
}

impl CalculatorView {
    /// What is left to mint.
    pub open spec fn remaining(self, current_supply: u64) -> nat {
        less(self.supply_cap as nat, current_supply as nat)
    }

    /// The reward before it is limited: the share of what is left to mint that
    /// the stake is of the supply, at a rate that grows with the time staked.
    /// Each division drops its remainder.
    pub open spec fn unlimited(self, duration: u64, amount: u64, current_supply: u64) -> nat {
        let p = self.minting_period;
        let rate = self.max_sub_min_consumption_rate * (duration as nat)
            + self.min_consumption_rate * p;
        let scale = p * (PERCENT_DENOMINATOR as nat);
        self.remaining(current_supply) * rate * (amount as nat) * (duration as nat) / scale / (
        current_supply as nat) / p
    }

    /// The reward: no more than what is left to mint.
    pub open spec fn reward(self, duration: u64, amount: u64, current_supply: u64) -> nat {
        let r = self.unlimited(duration, amount, current_supply);
        let left = self.remaining(current_supply);
        if r < left {
            r
        } else {
            left
        }
    }
}

impl Calculator {
    /// Calculates rewards from `config`.
    pub fn new(config: Config) -> (r: Calculator)
        ensures
            r@ == (CalculatorView {
                max_sub_min_consumption_rate: less(
                    config.max_consumption_rate as nat,
                    config.min_consumption_rate as nat,
                ),
                min_consumption_rate: config.min_consumption_rate as nat,
                minting_period: config.minting_period as nat,
                supply_cap: config.supply_cap,
            }),
    {
        let max_sub_min: u64 = if config.max_consumption_rate < config.min_consumption_rate {
            0
        } else {
            config.max_consumption_rate - config.min_consumption_rate
        };
        Calculator {
            max_sub_min_consumption_rate: big(max_sub_min),
            min_consumption_rate: big(config.min_consumption_rate),
            minting_period: big(config.minting_period),
            supply_cap: config.supply_cap,
        }
    }

    /// How much a staker is rewarded with that staked `staked_amount` for
    /// `staked_duration_ns` nanoseconds while the supply is `current_supply`.
    pub fn calculate(
        &self,
        staked_duration_ns: u64,
        staked_amount: u64,
        current_supply: u64,
    ) -> (r: u64)
        requires
            self@.minting_period > 0,
            current_supply > 0,
        ensures
            r == self@.reward(staked_duration_ns, staked_amount, current_supply),
    {
        let duration = big(staked_duration_ns);
        let amount = big(staked_amount);
        let supply = big(current_supply);
        let grown = big_product(&self.max_sub_min_consumption_rate, &duration);
        let base = big_product(&self.min_consumption_rate, &self.minting_period);
        let numerator = big_sum(&grown, &base);
        let percent = big(PERCENT_DENOMINATOR);
        let denominator = big_product(&self.minting_period, &percent);
        proof {
            let p = self@.minting_period;
            assert(p * (PERCENT_DENOMINATOR as nat) > 0) by (nonlinear_arith)
                requires
                    p > 0,
            ;
        }
        let remaining_supply: u64 = if self.supply_cap < current_supply {
            0
        } else {
            self.supply_cap - current_supply
        };
        let left = big(remaining_supply);
        let scaled = big_product(&left, &numerator);
        let staked = big_product(&scaled, &amount);
        let timed = big_product(&staked, &duration);
        let first = big_quotient(&timed, &denominator);
        let second = big_quotient(&first, &supply);
        let reward = big_quotient(&second, &self.minting_period);
        match biguint_to_u64(&reward) {
            None => remaining_supply,
            Some(v) => if v < remaining_supply {
                v
            } else {
                remaining_supply
            },
        }
    }
}

/// A reward never takes the supply above its cap.
pub proof fn rewards_respect_the_cap(
    c: CalculatorView,
    duration: u64,
    amount: u64,
    current_supply: u64,
)
    requires
        current_supply <= c.supply_cap,
    ensures
        current_supply + c.reward(duration, amount, current_supply) <= c.supply_cap,
{
}

/// Nothing is minted for no stake, for no time, or once the cap is reached.
pub proof fn no_reward_for_nothing(
    c: CalculatorView,
    duration: u64,
    amount: u64,
    current_supply: u64,
)
    requires
        c.minting_period > 0,
        current_supply > 0,
        duration == 0 || amount == 0 || current_supply >= c.supply_cap,
    ensures
        c.reward(duration, amount, current_supply) == 0,
{
    let p = c.minting_period;
    let rate = c.max_sub_min_consumption_rate * (duration as nat) + c.min_consumption_rate * p;
    let scale = p * (PERCENT_DENOMINATOR as nat);
    let left = c.remaining(current_supply);
    let all = left * rate * (amount as nat) * (duration as nat);
    if left > 0 {
        assert(all == 0) by (nonlinear_arith)
            requires
                all == left * rate * (amount as nat) * (duration as nat),
                duration == 0 || amount == 0,
        ;
        assert(0nat / scale == 0) by (nonlinear_arith)
            requires
                scale == p * 1_000_000,
                p > 0,
        ;
        assert(0nat / (current_supply as nat) == 0);
        assert(0nat / p == 0) by (nonlinear_arith)
            requires
                p > 0,
        ;
    }
}

/// The part of `total` that is left to others by one who keeps `shares`
/// millionths: rounded down at the end where that fits, and otherwise earlier.
pub open spec fn remainder_of(total: u64, shares: u32) -> nat {
    let others = less(PERCENT_DENOMINATOR as nat, shares as nat);
    if others * total <= u64::MAX {
        others * (total as nat) / (PERCENT_DENOMINATOR as nat)
    } else {
        others * (total as nat / PERCENT_DENOMINATOR as nat)
    }
}

/// Splits `total_amount` into the part of one who keeps `shares` millionths,
/// and the rest.
pub fn split(total_amount: u64, shares: u32) -> (r: (u64, u64))
    ensures
        r.1 == remainder_of(total_amount, shares),
        r.0 + r.1 == total_amount,
{
    let others: u64 = if (shares as u64) < PERCENT_DENOMINATOR {
        PERCENT_DENOMINATOR - shares as u64
    } else {
        0
    };
    let whole: u64 = total_amount / PERCENT_DENOMINATOR;
    proof {
        assert(others * whole <= total_amount) by (nonlinear_arith)
            requires
                others <= 1_000_000,
                whole == total_amount / 1_000_000,
        ;
    }
    let remainder_amount: u64 = match others.checked_mul(total_amount) {
        Some(exact) => {
            proof {
                assert(exact / 1_000_000 <= total_amount) by (nonlinear_arith)
                    requires
                        exact == others * total_amount,
                        others <= 1_000_000,
                ;
            }
            exact / PERCENT_DENOMINATOR
        },
        None => others * whole,
    };
    (total_amount - remainder_amount, remainder_amount)
}

} // verus!
