//! Rewards: how they grow, and how they are shared.
use vstd::arithmetic::div_mod::{lemma_div_denominator, lemma_div_is_ordered};
use vstd::prelude::*;

use crate::reward::calculator::{split, Calculator};
use crate::reward::config::Config;

verus! {

/// A calculator takes its rates, its period and its cap from its configuration:
/// the rate grows from the lowest, at no time, to the highest, at the whole
/// period, and not at all where the highest is below the lowest.
pub proof fn a_calculator_is_as_configured(config: Config, c: Calculator)
    requires
        call_ensures(Calculator::new, (config,), c),
    ensures
        c@.min_consumption_rate == config.min_consumption_rate,
        c@.minting_period == config.minting_period,
        c@.supply_cap == config.supply_cap,
        config.max_consumption_rate >= config.min_consumption_rate
            ==> c@.max_sub_min_consumption_rate + c@.min_consumption_rate
            == config.max_consumption_rate,
        config.max_consumption_rate < config.min_consumption_rate
            ==> c@.max_sub_min_consumption_rate == 0,
{
}

proof fn lemma_div3(x: nat, a: nat, b: nat, c: nat)
    requires
        a > 0,
        b > 0,
        c > 0,
    ensures
        x / a / b / c == x / (a * b * c),
        a * b * c > 0,
{
    lemma_div_denominator(x as int, a as int, b as int);
    assert(a * b > 0) by (nonlinear_arith)
        requires
            a > 0,
            b > 0,
    ;
    lemma_div_denominator(x as int, (a * b) as int, c as int);
    assert(a * b * c > 0) by (nonlinear_arith)
        requires
            a * b > 0,
            c > 0,
    ;
}

/// The reward is the part of what is left to mint that falls to the stake: to
/// stake the whole supply for the whole period mints the highest rate, in
/// millionths, of what is left.
pub proof fn the_whole_supply_earns_the_whole_rate(
    c: &Calculator,
    period: u64,
    supply: u64,
    r: u64,
)
    requires
        period == c@.minting_period,
        period > 0,
        0 < supply <= c@.supply_cap,
        c@.max_sub_min_consumption_rate + c@.min_consumption_rate <= 1_000_000,
        call_ensures(Calculator::calculate, (c, period, supply, supply), r),
    ensures
        r == (c@.supply_cap - supply) * (c@.max_sub_min_consumption_rate
            + c@.min_consumption_rate) / 1_000_000,
{
    let p = period as nat;
    let s = supply as nat;
    let left = (c@.supply_cap - supply) as nat;
    let top = c@.max_sub_min_consumption_rate + c@.min_consumption_rate;
    let rate = c@.max_sub_min_consumption_rate * p + c@.min_consumption_rate * p;
    let all = left * rate * s * p;
    let scale = p * 1_000_000nat;
    assert(scale > 0);
    lemma_div3(all, scale, s, p);
    let k = p * s * p;
    assert(all == k * (left * top)) by (nonlinear_arith)
        requires
            all == left * rate * s * p,
            rate == c@.max_sub_min_consumption_rate * p + c@.min_consumption_rate * p,
            top == c@.max_sub_min_consumption_rate + c@.min_consumption_rate,
            k == p * s * p,
    ;
    assert(scale * s * p == k * 1_000_000nat) by (nonlinear_arith)
        requires
            scale == p * 1_000_000nat,
            k == p * s * p,
    ;
    assert(k > 0) by (nonlinear_arith)
        requires
            k == p * s * p,
            p > 0,
            s > 0,
    ;
    vstd::arithmetic::div_mod::lemma_div_multiples_vanish_quotient(
        k as int,
        (left * top) as int,
        1_000_000,
    );
    let share = left * top / 1_000_000;
    assert(share <= left) by (nonlinear_arith)
        requires
            share == left * top / 1_000_000,
            top <= 1_000_000,
    ;
}

/// A greater stake, or a longer one, never earns less.
pub proof fn more_never_earns_less(
    c: &Calculator,
    duration: u64,
    longer: u64,
    amount: u64,
    greater: u64,
    supply: u64,
    r: u64,
    more: u64,
)
    requires
        c@.minting_period > 0,
        supply > 0,
        duration <= longer,
        amount <= greater,
        call_ensures(Calculator::calculate, (c, duration, amount, supply), r),
        call_ensures(Calculator::calculate, (c, longer, greater, supply), more),
    ensures
        r <= more,
        supply <= c@.supply_cap ==> supply + more <= c@.supply_cap,
        supply > c@.supply_cap ==> more == 0,
{
    let p = c@.minting_period;
    let s = supply as nat;
    let left = c@.remaining(supply);
    let (d, e) = (duration as nat, longer as nat);
    let (a, g) = (amount as nat, greater as nat);
    let (u, m) = (c@.max_sub_min_consumption_rate, c@.min_consumption_rate);
    let x = left * (u * d + m * p) * a * d;
    let y = left * (u * e + m * p) * g * e;
    let scale = p * 1_000_000nat;
    let ra = u * d + m * p;
    let rb = u * e + m * p;
    assert(ra <= rb) by (nonlinear_arith)
        requires
            ra == u * d + m * p,
            rb == u * e + m * p,
            d <= e,
    ;
    assert(left * ra <= left * rb) by (nonlinear_arith)
        requires
            ra <= rb,
    ;
    assert(left * ra * a <= left * rb * g) by (nonlinear_arith)
        requires
            left * ra <= left * rb,
            a <= g,
    ;
    assert(x <= y) by (nonlinear_arith)
        requires
            x == left * ra * a * d,
            y == left * rb * g * e,
            left * ra * a <= left * rb * g,
            d <= e,
    ;
    assert(scale > 0);
    lemma_div_is_ordered(x as int, y as int, scale as int);
    lemma_div_is_ordered((x / scale) as int, (y / scale) as int, s as int);
    lemma_div_is_ordered((x / scale / s) as int, (y / scale / s) as int, p as int);
}

/// A reward is shared in full: the two parts make it up. One who keeps all the
/// millionths leaves nothing; otherwise the second part is that of the millionths
/// that are not kept, rounded down, and rounded before it is multiplied where the
/// product would be too great.
pub proof fn shares_add_up(total: u64, shares: u32, r: (u64, u64))
    requires
        call_ensures(split, (total, shares), r),
    ensures
        r.0 + r.1 == total,
        shares >= 1_000_000 ==> r.0 == total && r.1 == 0,
        shares < 1_000_000 && (1_000_000 - shares) * total <= u64::MAX ==> r.1 == (1_000_000
            - shares) * total / 1_000_000,
        shares < 1_000_000 && (1_000_000 - shares) * total > u64::MAX ==> r.1 == (1_000_000
            - shares) * (total as int / 1_000_000),
        shares == 0 && 1_000_000 * total <= u64::MAX ==> r.0 == 0,
{
    if shares < 1_000_000 {
        let others = (1_000_000 - shares) as nat;
        assert(others * (total as nat) == (1_000_000 - shares) * total);
    }
    assert(0nat * (total as nat) == 0);
}

} // verus!
