//! End-to-end tests of the interest calculator through its public API.

use alloy_primitives::U256;
use interest_calculator::{Error, InterestCalculator};

const NOW: u64 = 1_700_000_000;

/// The variant that crystallizes accumulated interest on a rate change
/// and keeps no memo.
fn crystallizing() -> InterestCalculator {
    let mut calc = InterestCalculator::new(true, false);
    calc.initialize().unwrap();
    calc
}

/// The variant with the single-entry memo and no crystallization.
fn cached() -> InterestCalculator {
    let mut calc = InterestCalculator::new(false, true);
    calc.initialize().unwrap();
    calc
}

#[test]
fn initialize_sets_defaults() {
    let calc = crystallizing();
    assert_eq!(calc.get_principal(), U256::from(0u64));
    assert_eq!(calc.get_rate(), U256::from(550u64));
    assert_eq!(calc.get_period(), U256::from(1u64));
    assert_eq!(calc.get_accumulated_interest(), U256::from(0u64));
}

#[test]
fn reinitialize_resets_everything() {
    let mut calc = cached();
    calc.set_principal(U256::from(5_000_000u64)).unwrap();
    calc.set_rate(U256::from(1200u64)).unwrap();
    calc.set_period(U256::from(3u64)).unwrap();
    calc.calculate_interest(NOW).unwrap();
    calc.initialize().unwrap();
    assert_eq!(calc.get_principal(), U256::from(0u64));
    assert_eq!(calc.get_rate(), U256::from(550u64));
    assert_eq!(calc.get_period(), U256::from(1u64));
    assert_eq!(calc.get_accumulated_interest(), U256::from(0u64));
}

#[test]
fn zero_principal_short_circuits() {
    let mut calc = crystallizing();
    assert_eq!(calc.calculate_interest(NOW), Ok(U256::from(0u64)));
    assert_eq!(calc.get_accumulated_interest(), U256::from(0u64));

    let mut calc = cached();
    calc.set_compound(U256::from(0u64)).unwrap();
    assert_eq!(calc.calculate_interest(NOW), Ok(U256::from(0u64)));
    assert_eq!(calc.get_accumulated_interest(), U256::from(0u64));
}

#[test]
fn simple_interest_exact_value() {
    // 1,000,000 * 550 * 2 / 100,000,000 == 11, truncating.
    let mut calc = crystallizing();
    calc.set_principal(U256::from(1_000_000u64)).unwrap();
    calc.set_period(U256::from(2u64)).unwrap();
    calc.set_compound(U256::from(0u64)).unwrap();
    assert_eq!(calc.calculate_interest(NOW), Ok(U256::from(11u64)));
    assert_eq!(calc.get_accumulated_interest(), U256::from(11u64));
}

#[test]
fn compound_interest_exact_value() {
    // rate 550 becomes 5 in the 1e6 scale, base 1,000,005; squared and
    // rescaled that is 1,000,010, so two periods on 1,000,000 yield 10.
    let mut calc = crystallizing();
    calc.set_principal(U256::from(1_000_000u64)).unwrap();
    calc.set_period(U256::from(2u64)).unwrap();
    assert_eq!(calc.calculate_interest(NOW), Ok(U256::from(10u64)));
    assert_eq!(calc.get_accumulated_interest(), U256::from(10u64));
}

#[test]
fn compound_one_period_exact_value() {
    let mut calc = cached();
    calc.set_principal(U256::from(1_000_000u64)).unwrap();
    assert_eq!(calc.calculate_interest(NOW), Ok(U256::from(5u64)));
}

#[test]
fn compound_three_periods_exact_value() {
    let mut calc = cached();
    calc.set_principal(U256::from(1_000_000u64)).unwrap();
    calc.set_period(U256::from(3u64)).unwrap();
    assert_eq!(calc.calculate_interest(NOW), Ok(U256::from(15u64)));
}

#[test]
fn zero_period_compound_yields_zero() {
    let mut calc = crystallizing();
    calc.set_principal(U256::from(1_000_000u64)).unwrap();
    calc.set_period(U256::from(0u64)).unwrap();
    assert_eq!(calc.calculate_interest(NOW), Ok(U256::from(0u64)));

    let mut calc = cached();
    calc.set_principal(U256::from(1_000_000u64)).unwrap();
    calc.set_period(U256::from(0u64)).unwrap();
    assert_eq!(calc.calculate_interest(NOW), Ok(U256::from(0u64)));
}

#[test]
fn zero_rate_compound_yields_zero() {
    let mut calc = cached();
    calc.set_principal(U256::from(1_000_000u64)).unwrap();
    calc.set_rate(U256::from(0u64)).unwrap();
    calc.set_period(U256::from(5u64)).unwrap();
    assert_eq!(calc.calculate_interest(NOW), Ok(U256::from(0u64)));
}

#[test]
fn setter_validation_boundaries() {
    let mut calc = crystallizing();
    assert_eq!(calc.set_rate(U256::from(10_000u64)), Ok(()));
    assert_eq!(calc.set_rate(U256::from(10_001u64)), Err(Error::RateTooHigh));
    assert_eq!(calc.get_rate(), U256::from(10_000u64));
    assert_eq!(calc.set_period(U256::from(100u64)), Ok(()));
    assert_eq!(calc.set_period(U256::from(101u64)), Err(Error::PeriodTooLong));
    assert_eq!(calc.get_period(), U256::from(100u64));
    assert_eq!(calc.set_compound(U256::from(2u64)), Err(Error::InvalidCompoundFlag));
    assert_eq!(calc.set_compound(U256::from(0u64)), Ok(()));
    assert_eq!(calc.set_compound(U256::from(1u64)), Ok(()));
}

#[test]
fn consecutive_deltas_are_equal() {
    // The formula reads only principal, rate and period, so an unchanged
    // record accrues the same delta twice, with and without the memo.
    let mut calc = cached();
    calc.set_principal(U256::from(1_000_000u64)).unwrap();
    calc.set_period(U256::from(2u64)).unwrap();
    assert_eq!(calc.calculate_interest(NOW), Ok(U256::from(10u64)));
    assert_eq!(calc.calculate_interest(NOW + 1), Ok(U256::from(10u64)));
    assert_eq!(calc.get_accumulated_interest(), U256::from(20u64));

    let mut calc = crystallizing();
    calc.set_principal(U256::from(1_000_000u64)).unwrap();
    calc.set_period(U256::from(2u64)).unwrap();
    assert_eq!(calc.calculate_interest(NOW), Ok(U256::from(10u64)));
    assert_eq!(calc.calculate_interest(NOW + 1), Ok(U256::from(10u64)));
    assert_eq!(calc.get_accumulated_interest(), U256::from(20u64));
}

#[test]
fn memo_not_stale_after_principal_change() {
    // Changing the principal clears the memo, so recalculating with the
    // same (rate, period) key yields the delta of the new principal, not
    // the memoised one.
    let mut calc = cached();
    calc.set_principal(U256::from(1_000_000u64)).unwrap();
    calc.set_period(U256::from(2u64)).unwrap();
    assert_eq!(calc.calculate_interest(NOW), Ok(U256::from(10u64)));
    calc.set_principal(U256::from(2_000_000u64)).unwrap();
    assert_eq!(calc.calculate_interest(NOW + 1), Ok(U256::from(20u64)));
}

#[test]
fn memo_cleared_by_period_change() {
    let mut calc = cached();
    calc.set_principal(U256::from(1_000_000u64)).unwrap();
    calc.set_period(U256::from(2u64)).unwrap();
    assert_eq!(calc.calculate_interest(NOW), Ok(U256::from(10u64)));
    calc.set_period(U256::from(3u64)).unwrap();
    assert_eq!(calc.calculate_interest(NOW + 1), Ok(U256::from(15u64)));
}

#[test]
fn rate_change_crystallizes_interest() {
    // In the crystallizing variant a rate change first rolls the
    // accumulated interest into the principal and zeroes it.
    let mut calc = crystallizing();
    calc.set_principal(U256::from(1_000_000_000u64)).unwrap();
    assert_eq!(calc.calculate_interest(NOW), Ok(U256::from(5_000u64)));
    assert_eq!(calc.get_accumulated_interest(), U256::from(5_000u64));
    calc.set_rate(U256::from(1_000u64)).unwrap();
    assert_eq!(calc.get_principal(), U256::from(1_000_005_000u64));
    assert_eq!(calc.get_accumulated_interest(), U256::from(0u64));
    assert_eq!(calc.get_rate(), U256::from(1_000u64));
}

#[test]
fn rate_change_without_crystallization() {
    let mut calc = cached();
    calc.set_principal(U256::from(1_000_000_000u64)).unwrap();
    assert_eq!(calc.calculate_interest(NOW), Ok(U256::from(5_000u64)));
    calc.set_rate(U256::from(1_000u64)).unwrap();
    assert_eq!(calc.get_principal(), U256::from(1_000_000_000u64));
    assert_eq!(calc.get_accumulated_interest(), U256::from(5_000u64));
    assert_eq!(calc.get_rate(), U256::from(1_000u64));
}

#[test]
fn compound_overflow_on_huge_principal() {
    let mut calc = cached();
    calc.set_principal(U256::MAX).unwrap();
    assert_eq!(calc.calculate_interest(NOW), Err(Error::FinalMultiplicationOverflow));
    // The failing call leaves the record unchanged.
    assert_eq!(calc.get_principal(), U256::MAX);
    assert_eq!(calc.get_accumulated_interest(), U256::from(0u64));
}

#[test]
fn simple_overflow_on_huge_principal() {
    let mut calc = cached();
    calc.set_principal(U256::MAX).unwrap();
    calc.set_compound(U256::from(0u64)).unwrap();
    assert_eq!(
        calc.calculate_interest(NOW),
        Err(Error::SimpleInterestMultiplicationOverflow)
    );
}

#[test]
fn simple_period_overflow() {
    // A principal small enough to survive the rate multiplication but
    // not the period multiplication.
    let principal = U256::MAX / U256::from(600u64);
    let mut calc = cached();
    calc.set_principal(principal).unwrap();
    calc.set_period(U256::from(2u64)).unwrap();
    calc.set_compound(U256::from(0u64)).unwrap();
    assert_eq!(
        calc.calculate_interest(NOW),
        Err(Error::SimpleInterestPeriodMultiplicationOverflow)
    );
}

#[test]
fn crystallization_overflow_is_rejected() {
    let mut calc = crystallizing();
    calc.set_principal(U256::from(1_000_000u64)).unwrap();
    assert_eq!(calc.calculate_interest(NOW), Ok(U256::from(5u64)));
    calc.set_principal(U256::MAX).unwrap();
    assert_eq!(calc.set_rate(U256::from(100u64)), Err(Error::PrincipalAdditionOverflow));
    // Nothing was mutated by the failing call.
    assert_eq!(calc.get_principal(), U256::MAX);
    assert_eq!(calc.get_accumulated_interest(), U256::from(5u64));
    assert_eq!(calc.get_rate(), U256::from(550u64));
}

#[test]
fn maximum_valid_inputs_succeed() {
    // rate 10,000 and period 100 are the largest accepted inputs; the
    // compound factor stays near 1.01^100 in fixed point.
    let mut calc = cached();
    calc.set_principal(U256::from(1_000_000_000u64)).unwrap();
    calc.set_rate(U256::from(10_000u64)).unwrap();
    calc.set_period(U256::from(100u64)).unwrap();
    let delta = calc.calculate_interest(NOW).unwrap();
    assert!(delta > U256::from(0u64));
    assert_eq!(calc.get_accumulated_interest(), delta);
}
