//! Stable-swap invariant engine for a two-asset liquidity pool: overflow-safe
//! fixed-point arithmetic, the fee schedule, the amplification ramp, the
//! invariant solver and the deposit and withdrawal quotes built on it.

pub mod bn;
pub mod curve;
pub mod error;
pub mod fees;
pub mod math;
pub mod pool_converter;
pub mod processor;
