//! Failures that the pool's quotes report.

use vstd::prelude::*;

verus! {

/// Why a quote was refused.
#[derive(Clone, Copy, Debug, PartialEq, Eq, Structural)]
pub enum SwapError {
    /// An argument lies outside what the pool accepts.
    InvalidInput,
    /// A reserve that must hold tokens is empty.
    EmptySupply,
    /// The pool has issued no shares.
    EmptyPool,
    /// An intermediate value overflowed, went negative or was divided by zero.
    CalculationFailure,
    /// The computed amount is worse than the caller's declared minimum.
    ExceededSlippage,
    /// A stored record is shorter than its layout.
    InvalidAccountData,
}

} // verus!
