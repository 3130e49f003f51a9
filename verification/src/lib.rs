//! A deterministic fixed-point interest-accrual calculator.
//!
//! The calculator keeps a single record of unsigned 256-bit fields
//! (principal, rate, period, compounding flag, accumulated interest and
//! timestamps) and computes simple or compound interest over them in
//! fixed-point integer arithmetic with a scale factor of 1,000,000.
//! All arithmetic is checked: a call either commits its whole effect or
//! fails with a structured error and leaves the record unchanged.

pub mod engine;
pub mod errors;
pub mod laws;
pub mod model;
pub mod uint256;

pub use engine::InterestCalculator;
pub use errors::Error;
pub use model::CalcView;
pub use uint256::u256_nat;
