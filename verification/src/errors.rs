//! The closed set of failure conditions.
//!
//! Validation errors come from the setters; the arithmetic errors name the
//! individual checked step of the interest computation that failed, one
//! variant per step, so a caller can tell exactly which operation
//! overflowed.  No error is ever raised after a state change: a failing
//! call leaves the record exactly as it was.

use vstd::prelude::*;

verus! {

#[derive(Clone, Copy, Debug, PartialEq, Eq, Structural)]
pub enum Error {
    /// A rate above 10,000 (100.00%) was passed to `set_rate`.
    RateTooHigh,
    /// A period above 100 was passed to `set_period`.
    PeriodTooLong,
    /// A value other than 0 or 1 was passed to `set_compound`.
    InvalidCompoundFlag,
    /// The stored period does not fit the 32-bit exponent used by the
    /// compound computation.
    InvalidPeriodValue,
    /// Converting the rate to the fixed-point scale overflowed.
    RateMultiplicationOverflow,
    /// Dividing the scaled rate by the conversion factor failed.
    RateDivisionOverflow,
    /// Forming the fixed-point base `1.0 + rate` overflowed.
    BaseAdditionOverflow,
    /// Multiplying the running result by the base overflowed.
    ExponentiationOverflow,
    /// Rescaling the running result after a multiplication failed.
    ExponentiationDivisionOverflow,
    /// Squaring the base overflowed.
    BaseMultiplicationOverflow,
    /// Rescaling the squared base failed.
    BaseDivisionOverflow,
    /// Multiplying the principal by the compound factor overflowed.
    FinalMultiplicationOverflow,
    /// Rescaling the compounded amount failed.
    FinalDivisionOverflow,
    /// Subtracting the principal from the compounded amount underflowed.
    FinalSubtractionUnderflow,
    /// Multiplying the principal by the rate overflowed (simple interest).
    SimpleInterestMultiplicationOverflow,
    /// Multiplying by the period overflowed (simple interest).
    SimpleInterestPeriodMultiplicationOverflow,
    /// Dividing by the rate scale failed (simple interest).
    SimpleInterestDivisionOverflow,
    /// Adding the new delta to the accumulated interest overflowed.
    AccumulatedInterestAdditionOverflow,
    /// Rolling the accumulated interest into the principal on a rate
    /// change overflowed.
    PrincipalAdditionOverflow,
}

} // verus!
