use ava_platformvm::reward::big::biguint_to_u64;
use ava_platformvm::reward::{split, Calculator, Config, PERCENT_DENOMINATOR};

const YEAR: u64 = 365 * 24 * 60 * 60 * 1_000_000_000;
const AVAX: u64 = 1_000_000_000;
const MEGA_AVAX: u64 = 1_000_000 * AVAX;

#[test]
fn a_year_of_staking_earns_the_full_rate() {
    let c = Calculator::new(Config::mainnet());
    assert_eq!(c.calculate(YEAR, MEGA_AVAX, 360 * MEGA_AVAX), 120_000 * AVAX);
    assert_eq!(c.calculate(YEAR, MEGA_AVAX, 400 * MEGA_AVAX), 96_000 * AVAX);
}

#[test]
fn a_shorter_time_earns_a_lower_rate() {
    let c = Calculator::new(Config::mainnet());
    assert_eq!(
        c.calculate(14 * 24 * 60 * 60 * 1_000_000_000, 2_000 * AVAX, 360 * MEGA_AVAX),
        7_730_080_690
    );
    assert_eq!(c.calculate(YEAR / 2, 25 * AVAX, 400 * MEGA_AVAX), 1_100_000_000);
}

#[test]
fn nothing_is_earned_by_nothing_or_at_the_cap() {
    let c = Calculator::new(Config::mainnet());
    assert_eq!(c.calculate(0, MEGA_AVAX, 360 * MEGA_AVAX), 0);
    assert_eq!(c.calculate(YEAR, 0, 360 * MEGA_AVAX), 0);
    assert_eq!(c.calculate(YEAR, MEGA_AVAX, 720 * MEGA_AVAX), 0);
    assert_eq!(c.calculate(YEAR, MEGA_AVAX, 721 * MEGA_AVAX), 0);
}

#[test]
fn no_more_is_earned_than_is_left() {
    let c = Calculator::new(Config::mainnet());
    // A hundred years of all that there is, and more.
    assert_eq!(
        c.calculate(u64::MAX, u64::MAX, 700 * MEGA_AVAX),
        20 * MEGA_AVAX
    );
}

#[test]
fn rewards_do_not_depend_on_the_rates_being_in_order() {
    let c = Calculator::new(Config {
        max_consumption_rate: 1,
        min_consumption_rate: 100_000,
        minting_period: YEAR,
        supply_cap: 720 * MEGA_AVAX,
    });
    assert_eq!(c.calculate(YEAR, MEGA_AVAX, 360 * MEGA_AVAX), 100_000 * AVAX);
}

#[test]
fn amounts_are_split_by_millionths() {
    assert_eq!(PERCENT_DENOMINATOR, 1_000_000);
    assert_eq!(split(1_000_000, 250_000), (250_000, 750_000));
    // What is left over goes to the one who keeps the share.
    assert_eq!(split(10, 333_333), (4, 6));
    assert_eq!(split(7, 0), (0, 7));
    assert_eq!(split(7, 1_000_000), (7, 0));
    assert_eq!(split(7, 2_000_000), (7, 0));
    // So large that the amount is divided first.
    let (kept, rest) = split(u64::MAX, 500_000);
    assert_eq!(rest, u64::MAX / 1_000_000 * 500_000);
    assert_eq!(kept, u64::MAX - rest);
}

#[test]
fn numbers_fit_or_they_do_not() {
    assert_eq!(biguint_to_u64(&vec![]), Some(0));
    assert_eq!(biguint_to_u64(&vec![7]), Some(7));
    assert_eq!(biguint_to_u64(&vec![0, 1]), Some(1 << 32));
    assert_eq!(biguint_to_u64(&vec![0, 0, 1]), None);
}
