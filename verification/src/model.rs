//! The mathematical model of the calculator.
//!
//! Every stored field is modelled as the natural number it holds; a whole
//! record is a [`CalcView`].  The spec functions here state, over those
//! numbers, exactly what each operation of the calculator computes, and
//! the contracts of the executable code are phrased in terms of them.

use vstd::prelude::*;
use vstd::arithmetic::div_mod::{lemma_div_by_multiple, lemma_div_is_ordered};
use vstd::arithmetic::mul::{lemma_mul_inequality, lemma_mul_left_inequality};

use crate::errors::Error;
use crate::uint256::u256_limit;

verus! {

/// Fixed-point scale factor: this many units stand for 1.0.
pub open spec fn scale() -> nat {
    1_000_000
}

/// Divisor converting a rate in hundredths of a percent into the
/// fixed-point scale.
pub open spec fn rate_divisor() -> nat {
    100_000_000
}

/// The rate converted to the fixed-point scale: `rate * 1,000,000 /
/// 100,000,000`, truncating.
pub open spec fn rate_decimal_of(rate: nat) -> nat {
    rate * scale() / rate_divisor()
}

/// The fixed-point base `1.0 + rate` of the compound computation.
pub open spec fn base_of(rate: nat) -> nat {
    scale() + rate_decimal_of(rate)
}

/// One round of right-to-left binary exponentiation over fixed-point
/// numbers: while the exponent is nonzero, multiply the result by the
/// base when the low bit is set, square the base, and rescale each
/// product by the scale factor, truncating.
pub open spec fn pow_step(result: nat, base: nat, e: nat) -> nat
    decreases e,
{
    if e == 0 {
        result
    } else {
        let r2 = if e % 2 == 1 {
            result * base / scale()
        } else {
            result
        };
        pow_step(r2, base * base / scale(), e / 2)
    }
}

/// The fixed-point compound factor `(1.0 + rate)^period`, computed as the
/// executable code computes it.
pub open spec fn factor_of(rate: nat, period: nat) -> nat {
    pow_step(scale(), base_of(rate), period)
}

/// The compound-interest delta: `principal * factor / scale - principal`.
pub open spec fn compound_delta_of(p: nat, rate: nat, period: nat) -> int {
    p * factor_of(rate, period) / scale() - p
}

/// The simple-interest delta: `principal * rate * period / 100,000,000`,
/// truncating.
pub open spec fn simple_delta_of(p: nat, rate: nat, period: nat) -> nat {
    p * rate * period / rate_divisor()
}

/// A snapshot of the whole record, as natural numbers, together with the
/// two policy choices fixed at construction.
pub ghost struct CalcView {
    pub principal: nat,
    pub rate: nat,
    pub period: nat,
    pub compound: nat,
    pub accumulated_interest: nat,
    pub last_calculation: nat,
    pub cached_rate: nat,
    pub cached_period: nat,
    pub cached_result: nat,
    pub last_update: nat,
    pub crystallize_on_rate_change: bool,
    pub cache_enabled: bool,
}

impl CalcView {
    /// Well-formedness of a record: the setters' validation bounds hold,
    /// and whenever the memo's key matches the stored rate and period the
    /// memoised result is the compound delta of the *current* principal.
    /// The last clause is what makes the single-entry memo sound: every
    /// setter clears the memo, so a matching key can only come from a
    /// computation over the values now stored (or from the all-zero
    /// cleared memo, whose stored result 0 is the delta of a zero-period
    /// computation).
    pub open spec fn wf(self) -> bool {
        &&& self.rate <= 10000
        &&& self.period <= 100
        &&& self.compound <= 1
        &&& (self.cache_enabled && self.cached_rate == self.rate
            && self.cached_period == self.period ==> self.cached_result
            == compound_delta_of(self.principal, self.rate, self.period))
    }
}

/// The record as `new` creates it: all fields zero, policies as given.
pub open spec fn blank_view(crystallize_on_rate_change: bool, cache_enabled: bool) -> CalcView {
    CalcView {
        principal: 0,
        rate: 0,
        period: 0,
        compound: 0,
        accumulated_interest: 0,
        last_calculation: 0,
        cached_rate: 0,
        cached_period: 0,
        cached_result: 0,
        last_update: 0,
        crystallize_on_rate_change,
        cache_enabled,
    }
}

/// The record after `initialize`: principal 0, rate 5.50%, period 1,
/// compounding on, everything else cleared; the policies are kept.
pub open spec fn default_view(prev: CalcView) -> CalcView {
    CalcView {
        principal: 0,
        rate: 550,
        period: 1,
        compound: 1,
        accumulated_interest: 0,
        last_calculation: 0,
        cached_rate: 0,
        cached_period: 0,
        cached_result: 0,
        last_update: 0,
        ..prev
    }
}

/// The record with the single-entry memo cleared.
pub open spec fn invalidated(v: CalcView) -> CalcView {
    CalcView { cached_rate: 0, cached_period: 0, cached_result: 0, last_update: 0, ..v }
}

/// The memo key matches the stored inputs.  The key is (rate, period)
/// only; the principal is kept out of the key on purpose and soundness
/// comes from the setters clearing the memo.
pub open spec fn cache_hit(v: CalcView) -> bool {
    v.cache_enabled && v.cached_rate == v.rate && v.cached_period == v.period
}

/// A calculation on `v` computes a fresh compound result and stores it in
/// the memo.
pub open spec fn caches_result(v: CalcView) -> bool {
    v.cache_enabled && v.principal != 0 && v.compound == 1 && !cache_hit(v)
}

/// The interest delta a calculation on `v` yields.  It depends on the
/// principal, rate, period and compounding flag alone.
pub open spec fn calc_delta(v: CalcView) -> int {
    if v.principal == 0 {
        0
    } else if v.compound == 1 {
        compound_delta_of(v.principal, v.rate, v.period)
    } else {
        simple_delta_of(v.principal, v.rate, v.period) as int
    }
}

/// Exactly when a calculation on a well-formed `v` succeeds: every
/// checked arithmetic step stays below 2^256.
pub open spec fn calc_succeeds(v: CalcView) -> bool {
    if v.principal == 0 {
        true
    } else if v.compound == 1 {
        if cache_hit(v) {
            v.accumulated_interest + v.cached_result < u256_limit()
        } else {
            &&& v.principal * factor_of(v.rate, v.period) < u256_limit()
            &&& v.accumulated_interest + compound_delta_of(v.principal, v.rate, v.period)
                < u256_limit()
        }
    } else {
        &&& v.principal * v.rate < u256_limit()
        &&& v.principal * v.rate * v.period < u256_limit()
        &&& v.accumulated_interest + simple_delta_of(v.principal, v.rate, v.period) < u256_limit()
    }
}

/// The record after a successful calculation at time `now`: the delta is
/// accumulated and the calculation time stamped, except in the
/// zero-principal short-circuit, which leaves the record untouched; a
/// fresh compound result is additionally memoised.
pub open spec fn calc_post(v: CalcView, now: nat) -> CalcView {
    if v.principal == 0 {
        v
    } else {
        CalcView {
            accumulated_interest: (v.accumulated_interest + calc_delta(v)) as nat,
            last_calculation: now,
            cached_rate: if caches_result(v) { v.rate } else { v.cached_rate },
            cached_period: if caches_result(v) { v.period } else { v.cached_period },
            cached_result: if caches_result(v) { calc_delta(v) as nat } else { v.cached_result },
            last_update: if caches_result(v) { now } else { v.last_update },
            ..v
        }
    }
}

/// The first checked step that fails when a calculation on a well-formed
/// `v` with nonzero principal does not succeed.
pub open spec fn calc_error(v: CalcView) -> Error {
    if v.compound == 1 {
        if !cache_hit(v) && v.principal * factor_of(v.rate, v.period) >= u256_limit() {
            Error::FinalMultiplicationOverflow
        } else {
            Error::AccumulatedInterestAdditionOverflow
        }
    } else {
        if v.principal * v.rate >= u256_limit() {
            Error::SimpleInterestMultiplicationOverflow
        } else if v.principal * v.rate * v.period >= u256_limit() {
            Error::SimpleInterestPeriodMultiplicationOverflow
        } else {
            Error::AccumulatedInterestAdditionOverflow
        }
    }
}

/// Powers of two, used to bound how often the exponentiation loop can
/// halve its exponent.
pub open spec fn pow2n(k: nat) -> nat
    decreases k,
{
    if k == 0 {
        1
    } else {
        2 * pow2n((k - 1) as nat)
    }
}

/// Powers of three, used to bound the growth of the loop's fixed-point
/// values: each squaring at most triples the value's excess over 1.0.
pub open spec fn pow3n(k: nat) -> nat
    decreases k,
{
    if k == 0 {
        1
    } else {
        3 * pow3n((k - 1) as nat)
    }
}

pub proof fn lemma_pow2n_pos(k: nat)
    ensures
        pow2n(k) >= 1,
    decreases k,
{
    if k > 0 {
        lemma_pow2n_pos((k - 1) as nat);
    }
}

pub proof fn lemma_pow2n_monotone(j: nat, k: nat)
    requires
        j <= k,
    ensures
        pow2n(j) <= pow2n(k),
    decreases k,
{
    if j < k {
        lemma_pow2n_monotone(j, (k - 1) as nat);
        lemma_pow2n_pos((k - 1) as nat);
    }
}

pub proof fn lemma_pow3n_pos(k: nat)
    ensures
        pow3n(k) >= 1,
    decreases k,
{
    if k > 0 {
        lemma_pow3n_pos((k - 1) as nat);
    }
}

pub proof fn lemma_pow3n_monotone(j: nat, k: nat)
    requires
        j <= k,
    ensures
        pow3n(j) <= pow3n(k),
    decreases k,
{
    if j < k {
        lemma_pow3n_monotone(j, (k - 1) as nat);
        lemma_pow3n_pos((k - 1) as nat);
    }
}

/// A zero-period compound computation yields no interest: the factor is
/// exactly 1.0, so `p * factor / scale == p` and the delta is zero.
pub proof fn lemma_zero_period_delta(p: nat, rate: nat)
    ensures
        compound_delta_of(p, rate, 0) == 0,
{
    assert(factor_of(rate, 0) == scale());
    lemma_div_by_multiple(p as int, scale() as int);
    assert(p * scale() / scale() == p);
}

/// The compound delta is never negative: the factor never falls below
/// 1.0, so the compounded amount never falls below the principal.
pub proof fn lemma_compound_delta_nonneg(p: nat, rate: nat, period: nat)
    ensures
        compound_delta_of(p, rate, period) >= 0,
{
    lemma_factor_at_least_scale(rate, period);
    if p > 0 {
        lemma_mul_left_inequality(p as int, scale() as int, factor_of(rate, period) as int);
        lemma_div_is_ordered(
            (p * scale()) as int,
            (p * factor_of(rate, period)) as int,
            scale() as int,
        );
        lemma_div_by_multiple(p as int, scale() as int);
    }
}

/// The compound factor never falls below 1.0, so the compound delta is
/// never negative.
pub proof fn lemma_factor_at_least_scale(rate: nat, period: nat)
    ensures
        factor_of(rate, period) >= scale(),
{
    lemma_pow_step_at_least(scale(), base_of(rate), period);
}

/// In each round of the exponentiation both the running result and the
/// base are at least 1.0, so the final result is at least the initial
/// one.
pub proof fn lemma_pow_step_at_least(result: nat, base: nat, e: nat)
    requires
        result >= scale(),
        base >= scale(),
    ensures
        pow_step(result, base, e) >= result,
    decreases e,
{
    if e != 0 {
        let r2 = if e % 2 == 1 {
            result * base / scale()
        } else {
            result
        };
        if e % 2 == 1 {
            lemma_mul_inequality(scale() as int, base as int, result as int);
            assert(result * scale() <= result * base) by {
                lemma_mul_inequality(scale() as int, base as int, result as int);
                vstd::arithmetic::mul::lemma_mul_is_commutative(result as int, base as int);
                vstd::arithmetic::mul::lemma_mul_is_commutative(result as int, scale() as int);
            }
            lemma_div_is_ordered((result * scale()) as int, (result * base) as int, scale() as int);
            lemma_div_by_multiple(result as int, scale() as int);
            assert(r2 >= result);
        }
        assert(base * base >= base * scale()) by {
            lemma_mul_inequality(scale() as int, base as int, base as int);
            vstd::arithmetic::mul::lemma_mul_is_commutative(base as int, scale() as int);
        }
        lemma_div_is_ordered((base * scale()) as int, (base * base) as int, scale() as int);
        lemma_div_by_multiple(base as int, scale() as int);
        lemma_pow_step_at_least(r2, base * base / scale(), e / 2);
    }
}

} // verus!
