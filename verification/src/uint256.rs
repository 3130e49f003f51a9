//! Trusted boundary around the unsigned 256-bit integers of
//! `alloy_primitives`.
//!
//! The calculator stores its fields as `alloy_primitives::U256` and does all
//! of its arithmetic through the checked operations of that crate.  Verus
//! sees the type as opaque; the spec function [`u256_nat`] names the
//! mathematical value a `U256` holds, and each wrapper below states over
//! that name exactly what the wrapped operation computes.

use vstd::prelude::*;

use alloy_primitives::U256;
use alloy_primitives::ruint::Uint;

verus! {

#[verifier::external_type_specification]
#[verifier::external_body]
pub struct ExUint<const BITS: usize, const LIMBS: usize>(Uint<BITS, LIMBS>);

/// The mathematical value held by a `U256`.  A `U256` is a canonical
/// little-endian array of four 64-bit limbs, so two values are equal
/// exactly when they hold the same number, and that number is below
/// [`u256_limit`].
pub uninterp spec fn u256_nat(x: U256) -> nat;

/// One more than the largest value a `U256` can hold: 2^256.
pub open spec fn u256_limit() -> nat {
    0x10000000000000000000000000000000000000000000000000000000000000000nat
}

/// Relies on `Uint::<256, 4>::from::<u64>`: a 64-bit value always fits in
/// 256 bits, so the conversion is exact and never panics.
#[verifier::external_body]
pub(crate) fn u256_from_u64(v: u64) -> (r: U256)
    ensures
        u256_nat(r) == v as nat,
{
    U256::from(v)
}

/// Relies on `Uint`'s derived `PartialEq`, which compares the canonical
/// limb arrays and so decides equality of the held values.
#[verifier::external_body]
pub(crate) fn u256_eq(a: &U256, b: &U256) -> (r: bool)
    ensures
        r == (u256_nat(*a) == u256_nat(*b)),
{
    *a == *b
}

/// Relies on `Uint`'s `Ord`, which orders values numerically.
#[verifier::external_body]
pub(crate) fn u256_gt(a: &U256, b: &U256) -> (r: bool)
    ensures
        r == (u256_nat(*a) > u256_nat(*b)),
{
    *a > *b
}

/// Relies on `Uint::checked_add`: `Some` of the exact sum unless it
/// overflows 256 bits, `None` otherwise.
#[verifier::external_body]
pub(crate) fn u256_checked_add(a: &U256, b: &U256) -> (r: Option<U256>)
    ensures
        (match r {
            Some(v) => u256_nat(*a) + u256_nat(*b) < u256_limit()
                && u256_nat(v) == u256_nat(*a) + u256_nat(*b),
            None => u256_nat(*a) + u256_nat(*b) >= u256_limit(),
        }),
{
    a.checked_add(*b)
}

/// Relies on `Uint::checked_sub`: `Some` of the exact difference when the
/// subtrahend is no greater than the minuend, `None` otherwise.
#[verifier::external_body]
pub(crate) fn u256_checked_sub(a: &U256, b: &U256) -> (r: Option<U256>)
    ensures
        (match r {
            Some(v) => u256_nat(*a) >= u256_nat(*b)
                && u256_nat(v) == u256_nat(*a) - u256_nat(*b),
            None => u256_nat(*a) < u256_nat(*b),
        }),
{
    a.checked_sub(*b)
}

/// Relies on `Uint::checked_mul`: `Some` of the exact product unless it
/// overflows 256 bits, `None` otherwise.
#[verifier::external_body]
pub(crate) fn u256_checked_mul(a: &U256, b: &U256) -> (r: Option<U256>)
    ensures
        (match r {
            Some(v) => u256_nat(*a) * u256_nat(*b) < u256_limit()
                && u256_nat(v) == u256_nat(*a) * u256_nat(*b),
            None => u256_nat(*a) * u256_nat(*b) >= u256_limit(),
        }),
{
    a.checked_mul(*b)
}

/// Relies on `Uint::checked_div`: `Some` of the truncating quotient when
/// the divisor is nonzero, `None` on division by zero.
#[verifier::external_body]
pub(crate) fn u256_checked_div(a: &U256, b: &U256) -> (r: Option<U256>)
    ensures
        (match r {
            Some(v) => u256_nat(*b) > 0
                && u256_nat(v) == u256_nat(*a) / u256_nat(*b),
            None => u256_nat(*b) == 0,
        }),
{
    a.checked_div(*b)
}

/// Relies on `u32::try_from(Uint)`: `Ok` of the value exactly when it fits
/// in 32 bits, `Err` otherwise.
#[verifier::external_body]
pub(crate) fn u256_to_u32(a: &U256) -> (r: Option<u32>)
    ensures
        (match r {
            Some(v) => v as nat == u256_nat(*a),
            None => u256_nat(*a) > u32::MAX,
        }),
{
    u32::try_from(*a).ok()
}

} // verus!
