//! The calculator record and its operations.
//!
//! The record owns ten unsigned 256-bit fields and two policy choices
//! fixed at construction: whether a rate change crystallizes the
//! accumulated interest into the principal, and whether compound results
//! are memoised in a single-entry cache keyed on (rate, period).  Each
//! operation's contract is stated over the record's [`CalcView`].

use vstd::prelude::*;

use alloy_primitives::U256;

use crate::errors::Error;
use crate::model::{
    CalcView, base_of, blank_view, calc_delta, calc_error, calc_post, calc_succeeds,
    default_view, factor_of, invalidated, lemma_pow2n_monotone, lemma_pow3n_monotone,
    lemma_pow3n_pos, lemma_zero_period_delta, pow2n, pow3n, pow_step,
};
use crate::uint256::{
    u256_checked_add, u256_checked_div, u256_checked_mul, u256_checked_sub, u256_eq,
    u256_from_u64, u256_gt, u256_limit, u256_nat, u256_to_u32,
};
use vstd::arithmetic::div_mod::{lemma_div_by_multiple, lemma_div_is_ordered};
use vstd::arithmetic::mul::{lemma_mul_inequality, lemma_mul_left_inequality, lemma_mul_upper_bound};

verus! {

pub struct InterestCalculator {
    principal: U256,
    rate: U256,
    period: U256,
    compound: U256,
    accumulated_interest: U256,
    last_calculation: U256,
    cached_rate: U256,
    cached_period: U256,
    cached_result: U256,
    last_update: U256,
    crystallize_on_rate_change: bool,
    cache_enabled: bool,
}

impl View for InterestCalculator {
    type V = CalcView;

    closed spec fn view(&self) -> CalcView {
        CalcView {
            principal: u256_nat(self.principal),
            rate: u256_nat(self.rate),
            period: u256_nat(self.period),
            compound: u256_nat(self.compound),
            accumulated_interest: u256_nat(self.accumulated_interest),
            last_calculation: u256_nat(self.last_calculation),
            cached_rate: u256_nat(self.cached_rate),
            cached_period: u256_nat(self.cached_period),
            cached_result: u256_nat(self.cached_result),
            last_update: u256_nat(self.last_update),
            crystallize_on_rate_change: self.crystallize_on_rate_change,
            cache_enabled: self.cache_enabled,
        }
    }
}

impl InterestCalculator {
    /// Create a record with every field zero and the two policies fixed.
    pub fn new(crystallize_on_rate_change: bool, cache_enabled: bool) -> (r: Self)
        ensures
            r@ == blank_view(crystallize_on_rate_change, cache_enabled),
            r@.wf(),
    {
        let zero = u256_from_u64(0);
        let r = InterestCalculator {
            principal: zero,
            rate: zero,
            period: zero,
            compound: zero,
            accumulated_interest: zero,
            last_calculation: zero,
            cached_rate: zero,
            cached_period: zero,
            cached_result: zero,
            last_update: zero,
            crystallize_on_rate_change,
            cache_enabled,
        };
        proof {
            lemma_zero_period_delta(0, 0);
        }
        r
    }

    /// Reset every field to its default: principal 0, rate 5.50% (550),
    /// period 1, compounding on, accumulated interest and timestamps 0,
    /// memo cleared.  The policies chosen at construction are kept.
    ///
    /// Nothing guards against calling this again on a live record: a
    /// repeated call is a full, silent reset.
    pub fn initialize(&mut self) -> (r: Result<(), Error>)
        ensures
            final(self)@ == default_view(old(self)@),
            final(self)@.wf(),
            r is Ok,
    {
        let zero = u256_from_u64(0);
        self.principal = zero;
        self.rate = u256_from_u64(550);
        self.period = u256_from_u64(1);
        self.compound = u256_from_u64(1);
        self.accumulated_interest = zero;
        self.last_calculation = zero;
        self.cached_rate = zero;
        self.cached_period = zero;
        self.cached_result = zero;
        self.last_update = zero;
        Ok(())
    }

    /// Store a new principal unconditionally and clear the memo.
    pub fn set_principal(&mut self, amount: U256) -> (r: Result<(), Error>)
        requires
            old(self)@.wf(),
        ensures
            final(self)@.wf(),
            final(self)@ == invalidated(CalcView { principal: u256_nat(amount), ..old(self)@ }),
            r is Ok,
    {
        self.principal = amount;
        self.invalidate_cache();
        proof {
            lemma_zero_period_delta(u256_nat(amount), final(self)@.rate);
        }
        Ok(())
    }

    /// Store a new rate after validating it.  When the record was built
    /// with `crystallize_on_rate_change`, the accumulated interest is
    /// first rolled into the principal and reset to zero, so interest
    /// accrued under the old rate is crystallized before the new rate
    /// applies.  The memo is cleared.  A failing call leaves the record
    /// unchanged.
    pub fn set_rate(&mut self, new_rate: U256) -> (r: Result<(), Error>)
        requires
            old(self)@.wf(),
        ensures
            final(self)@.wf(),
            ({
                let v = old(self)@;
                if u256_nat(new_rate) > 10000 {
                    r == Err::<(), Error>(Error::RateTooHigh) && final(self)@ == v
                } else if v.crystallize_on_rate_change {
                    if v.principal + v.accumulated_interest < u256_limit() {
                        r is Ok && final(self)@ == invalidated(
                            CalcView {
                                principal: (v.principal + v.accumulated_interest) as nat,
                                accumulated_interest: 0,
                                rate: u256_nat(new_rate),
                                ..v
                            },
                        )
                    } else {
                        r == Err::<(), Error>(Error::PrincipalAdditionOverflow)
                            && final(self)@ == v
                    }
                } else {
                    r is Ok && final(self)@ == invalidated(
                        CalcView { rate: u256_nat(new_rate), ..v },
                    )
                }
            }),
    {
        let limit = u256_from_u64(10000);
        if u256_gt(&new_rate, &limit) {
            return Err(Error::RateTooHigh);
        }
        if self.crystallize_on_rate_change {
            match u256_checked_add(&self.principal, &self.accumulated_interest) {
                Some(sum) => {
                    self.principal = sum;
                    self.accumulated_interest = u256_from_u64(0);
                },
                None => {
                    return Err(Error::PrincipalAdditionOverflow);
                },
            }
        }
        self.rate = new_rate;
        self.invalidate_cache();
        proof {
            lemma_zero_period_delta(final(self)@.principal, final(self)@.rate);
        }
        Ok(())
    }

    /// Store a new period after validating it and clear the memo.  A
    /// failing call leaves the record unchanged.
    pub fn set_period(&mut self, new_period: U256) -> (r: Result<(), Error>)
        requires
            old(self)@.wf(),
        ensures
            final(self)@.wf(),
            ({
                let v = old(self)@;
                if u256_nat(new_period) > 100 {
                    r == Err::<(), Error>(Error::PeriodTooLong) && final(self)@ == v
                } else {
                    r is Ok && final(self)@ == invalidated(
                        CalcView { period: u256_nat(new_period), ..v },
                    )
                }
            }),
    {
        let limit = u256_from_u64(100);
        if u256_gt(&new_period, &limit) {
            return Err(Error::PeriodTooLong);
        }
        self.period = new_period;
        self.invalidate_cache();
        proof {
            lemma_zero_period_delta(final(self)@.principal, final(self)@.rate);
        }
        Ok(())
    }

    /// Store the compounding flag, which must be 0 or 1, and clear the
    /// memo.  A failing call leaves the record unchanged.
    pub fn set_compound(&mut self, is_compound: U256) -> (r: Result<(), Error>)
        requires
            old(self)@.wf(),
        ensures
            final(self)@.wf(),
            ({
                let v = old(self)@;
                if u256_nat(is_compound) > 1 {
                    r == Err::<(), Error>(Error::InvalidCompoundFlag) && final(self)@ == v
                } else {
                    r is Ok && final(self)@ == invalidated(
                        CalcView { compound: u256_nat(is_compound), ..v },
                    )
                }
            }),
    {
        let limit = u256_from_u64(1);
        if u256_gt(&is_compound, &limit) {
            return Err(Error::InvalidCompoundFlag);
        }
        self.compound = is_compound;
        self.invalidate_cache();
        proof {
            lemma_zero_period_delta(final(self)@.principal, final(self)@.rate);
        }
        Ok(())
    }

    /// The stored principal.
    pub fn get_principal(&self) -> (r: U256)
        ensures
            u256_nat(r) == self@.principal,
    {
        self.principal
    }

    /// The stored rate, in hundredths of a percent.
    pub fn get_rate(&self) -> (r: U256)
        ensures
            u256_nat(r) == self@.rate,
    {
        self.rate
    }

    /// The stored period.
    pub fn get_period(&self) -> (r: U256)
        ensures
            u256_nat(r) == self@.period,
    {
        self.period
    }

    /// The running total of all interest deltas accrued so far.
    pub fn get_accumulated_interest(&self) -> (r: U256)
        ensures
            u256_nat(r) == self@.accumulated_interest,
    {
        self.accumulated_interest
    }

    /// Compute the interest accrued for the current snapshot of
    /// (principal, rate, period, compounding flag), add it to the
    /// accumulated interest, stamp the calculation time with `now`, and
    /// return the delta just accrued.
    ///
    /// A zero principal short-circuits to 0 without touching the record,
    /// not even the calculation time.  With compounding on, the delta is
    /// `principal * (1.0 + rate)^period - principal` over fixed-point
    /// numbers scaled by 1,000,000, the power computed by right-to-left
    /// binary exponentiation with a truncating rescale after every
    /// multiplication; with compounding off it is
    /// `principal * rate * period / 100,000,000`.  In the memoised
    /// variant a compound result is reused when (rate, period) matches
    /// the memo and stored into it after a fresh computation.  Every
    /// arithmetic step is checked: the call either commits the whole
    /// update or returns the error naming the first failing step and
    /// leaves the record exactly as it was.
    #[verifier::rlimit(50)]
    pub fn calculate_interest(&mut self, now: u64) -> (r: Result<U256, Error>)
        requires
            old(self)@.wf(),
        ensures
            final(self)@.wf(),
            ({
                let v = old(self)@;
                match r {
                    Ok(delta) => calc_succeeds(v) && u256_nat(delta) == calc_delta(v)
                        && final(self)@ == calc_post(v, now as nat),
                    Err(e) => !calc_succeeds(v) && v.principal != 0 && e == calc_error(v)
                        && final(self)@ == v,
                }
            }),
    {
        let ghost v = self@;
        let zero = u256_from_u64(0);
        if u256_eq(&self.principal, &zero) {
            return Ok(zero);
        }
        let principal = self.principal;
        let rate = self.rate;
        let period = self.period;
        let one = u256_from_u64(1);
        let scale_u = u256_from_u64(1_000_000);
        let interest: U256;
        let mut store_cache = false;
        if u256_eq(&self.compound, &one) {
            if self.cache_enabled && self.is_cache_valid() {
                interest = self.cached_result;
            } else {
                let rate_scaled = match u256_checked_mul(&rate, &scale_u) {
                    Some(x) => x,
                    None => {
                        proof {
                            lemma_mul_upper_bound(v.rate as int, 10000, 1_000_000, 1_000_000);
                            assert(false);
                        }
                        return Err(Error::RateMultiplicationOverflow);
                    },
                };
                let rate_div = u256_from_u64(100_000_000);
                let rate_decimal = match u256_checked_div(&rate_scaled, &rate_div) {
                    Some(x) => x,
                    None => {
                        proof {
                            assert(false);
                        }
                        return Err(Error::RateDivisionOverflow);
                    },
                };
                proof {
                    lemma_mul_upper_bound(v.rate as int, 10000, 1_000_000, 1_000_000);
                    lemma_div_is_ordered(
                        (v.rate * 1_000_000) as int,
                        10_000_000_000,
                        100_000_000,
                    );
                }
                let base0 = match u256_checked_add(&scale_u, &rate_decimal) {
                    Some(x) => x,
                    None => {
                        proof {
                            assert(false);
                        }
                        return Err(Error::BaseAdditionOverflow);
                    },
                };
                let exponent = match u256_to_u32(&period) {
                    Some(x) => x,
                    None => {
                        proof {
                            assert(false);
                        }
                        return Err(Error::InvalidPeriodValue);
                    },
                };
                let mut result = scale_u;
                let mut base = base0;
                let mut power: u32 = exponent;
                let ghost b0: nat = u256_nat(base0);
                let ghost e0: nat = exponent as nat;
                let ghost mut k: nat = 0;
                proof {
                    assert(pow3n(0) == 1);
                    assert(pow2n(0) == 1);
                }
                while power > 0
                    invariant
                        u256_nat(scale_u) == 1_000_000,
                        1_000_000 <= u256_nat(result) <= 1_000_000 + 600 * pow3n(k),
                        1_000_000 <= u256_nat(base) <= 1_000_000 + 100 * pow3n(k),
                        (power as nat) * pow2n(k) <= 100,
                        k <= 7,
                        1_000_000 <= b0 <= 1_000_100,
                        pow_step(u256_nat(result), u256_nat(base), power as nat) == pow_step(
                            1_000_000,
                            b0,
                            e0,
                        ),
                    decreases power,
                {
                    proof {
                        if k >= 7 {
                            lemma_pow2n_monotone(7, k);
                            assert(pow2n(7) == 128) by {
                                reveal_with_fuel(pow2n, 9);
                            }
                            lemma_mul_inequality(1, power as int, pow2n(k) as int);
                            assert(false);
                        }
                        lemma_pow3n_monotone(k, 6);
                        assert(pow3n(6) == 729) by {
                            reveal_with_fuel(pow3n, 8);
                        }
                        lemma_pow3n_pos(k);
                    }
                    let ghost r_pre: nat = u256_nat(result);
                    let ghost b_pre: nat = u256_nat(base);
                    let ghost p_pre: nat = power as nat;
                    let ghost p3: nat = pow3n(k);
                    assert((power & 1) == (power % 2)) by (bit_vector);
                    assert((power >> 1) == (power / 2)) by (bit_vector);
                    if power & 1 == 1 {
                        let prod = match u256_checked_mul(&result, &base) {
                            Some(x) => x,
                            None => {
                                proof {
                                    lemma_mul_upper_bound(
                                        r_pre as int,
                                        1_437_400,
                                        b_pre as int,
                                        1_072_900,
                                    );
                                    assert(false);
                                }
                                return Err(Error::ExponentiationOverflow);
                            },
                        };
                        result = match u256_checked_div(&prod, &scale_u) {
                            Some(x) => x,
                            None => {
                                proof {
                                    assert(false);
                                }
                                return Err(Error::ExponentiationDivisionOverflow);
                            },
                        };
                        proof {
                            assert(r_pre * b_pre <= (1_000_000 + 1800 * p3) * 1_000_000)
                                by (nonlinear_arith)
                                requires
                                    r_pre <= 1_000_000 + 600 * p3,
                                    b_pre <= 1_000_000 + 100 * p3,
                                    1 <= p3 <= 729,
                            ;
                            lemma_div_is_ordered(
                                (r_pre * b_pre) as int,
                                ((1_000_000 + 1800 * p3) * 1_000_000) as int,
                                1_000_000,
                            );
                            lemma_div_by_multiple((1_000_000 + 1800 * p3) as int, 1_000_000);
                            lemma_mul_left_inequality(r_pre as int, 1_000_000, b_pre as int);
                            lemma_div_is_ordered(
                                (r_pre * 1_000_000) as int,
                                (r_pre * b_pre) as int,
                                1_000_000,
                            );
                            lemma_div_by_multiple(r_pre as int, 1_000_000);
                        }
                    }
                    let sq = match u256_checked_mul(&base, &base) {
                        Some(x) => x,
                        None => {
                            proof {
                                lemma_mul_upper_bound(
                                    b_pre as int,
                                    1_072_900,
                                    b_pre as int,
                                    1_072_900,
                                );
                                assert(false);
                            }
                            return Err(Error::BaseMultiplicationOverflow);
                        },
                    };
                    base = match u256_checked_div(&sq, &scale_u) {
                        Some(x) => x,
                        None => {
                            proof {
                                assert(false);
                            }
                            return Err(Error::BaseDivisionOverflow);
                        },
                    };
                    power = power >> 1;
                    proof {
                        assert(b_pre * b_pre <= (1_000_000 + 300 * p3) * 1_000_000)
                            by (nonlinear_arith)
                            requires
                                b_pre <= 1_000_000 + 100 * p3,
                                1 <= p3 <= 729,
                        ;
                        lemma_div_is_ordered(
                            (b_pre * b_pre) as int,
                            ((1_000_000 + 300 * p3) * 1_000_000) as int,
                            1_000_000,
                        );
                        lemma_div_by_multiple((1_000_000 + 300 * p3) as int, 1_000_000);
                        lemma_mul_left_inequality(b_pre as int, 1_000_000, b_pre as int);
                        lemma_div_is_ordered(
                            (b_pre * 1_000_000) as int,
                            (b_pre * b_pre) as int,
                            1_000_000,
                        );
                        lemma_div_by_multiple(b_pre as int, 1_000_000);
                        assert(pow_step(r_pre, b_pre, p_pre) == pow_step(
                            u256_nat(result),
                            u256_nat(base),
                            power as nat,
                        ));
                        assert(pow3n(k + 1) == 3 * pow3n(k));
                        assert(pow2n(k + 1) == 2 * pow2n(k));
                        assert((power as nat) * pow2n(k + 1) <= 100) by (nonlinear_arith)
                            requires
                                2 * (power as nat) <= p_pre,
                                pow2n(k + 1) == 2 * pow2n(k),
                                p_pre * pow2n(k) <= 100,
                        ;
                        k = k + 1;
                    }
                }
                proof {
                    assert(b0 == base_of(v.rate));
                    assert(e0 == v.period);
                    assert(u256_nat(result) == factor_of(v.rate, v.period));
                    lemma_pow3n_monotone(k, 7);
                    assert(pow3n(7) == 2187) by {
                        reveal_with_fuel(pow3n, 9);
                    }
                }
                let prod = match u256_checked_mul(&principal, &result) {
                    Some(x) => x,
                    None => {
                        return Err(Error::FinalMultiplicationOverflow);
                    },
                };
                let scaled = match u256_checked_div(&prod, &scale_u) {
                    Some(x) => x,
                    None => {
                        proof {
                            assert(false);
                        }
                        return Err(Error::FinalDivisionOverflow);
                    },
                };
                interest = match u256_checked_sub(&scaled, &principal) {
                    Some(x) => x,
                    None => {
                        proof {
                            lemma_mul_left_inequality(
                                v.principal as int,
                                1_000_000,
                                factor_of(v.rate, v.period) as int,
                            );
                            lemma_div_is_ordered(
                                (v.principal * 1_000_000) as int,
                                (v.principal * factor_of(v.rate, v.period)) as int,
                                1_000_000,
                            );
                            lemma_div_by_multiple(v.principal as int, 1_000_000);
                            assert(false);
                        }
                        return Err(Error::FinalSubtractionUnderflow);
                    },
                };
                store_cache = self.cache_enabled;
            }
        } else {
            let m1 = match u256_checked_mul(&principal, &rate) {
                Some(x) => x,
                None => {
                    return Err(Error::SimpleInterestMultiplicationOverflow);
                },
            };
            let m2 = match u256_checked_mul(&m1, &period) {
                Some(x) => x,
                None => {
                    return Err(Error::SimpleInterestPeriodMultiplicationOverflow);
                },
            };
            let rate_div = u256_from_u64(100_000_000);
            interest = match u256_checked_div(&m2, &rate_div) {
                Some(x) => x,
                None => {
                    proof {
                        assert(false);
                    }
                    return Err(Error::SimpleInterestDivisionOverflow);
                },
            };
        }
        let new_accumulated = match u256_checked_add(&self.accumulated_interest, &interest) {
            Some(x) => x,
            None => {
                return Err(Error::AccumulatedInterestAdditionOverflow);
            },
        };
        if store_cache {
            self.cached_rate = rate;
            self.cached_period = period;
            self.cached_result = interest;
            self.last_update = u256_from_u64(now);
        }
        self.accumulated_interest = new_accumulated;
        self.last_calculation = u256_from_u64(now);
        Ok(interest)
    }

    /// Clear the single-entry memo.
    fn invalidate_cache(&mut self)
        ensures
            final(self)@ == invalidated(old(self)@),
    {
        self.cached_rate = u256_from_u64(0);
        self.cached_period = u256_from_u64(0);
        self.cached_result = u256_from_u64(0);
        self.last_update = u256_from_u64(0);
    }

    /// The memo key (rate, period) matches the stored rate and period.
    fn is_cache_valid(&self) -> (r: bool)
        ensures
            r == (self@.cached_rate == self@.rate && self@.cached_period == self@.period),
    {
        let rate_matches = u256_eq(&self.cached_rate, &self.rate);
        let period_matches = u256_eq(&self.cached_period, &self.period);
        rate_matches && period_matches
    }
}

} // verus!
