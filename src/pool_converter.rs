//! Conversion of pool shares into the reserves that back them.

use vstd::prelude::*;
use crate::fees::Fees;
use crate::math::{mul_div, mul_div_value};

verus! {

/// The integers held by an optional triple of 64-bit results.
pub open spec fn opt_triple(r: Option<(u64, u64, u64)>) -> Option<(int, int, int)> {
    match r {
        Some((a, b, c)) => Some((a as int, b as int, c as int)),
        None => None,
    }
}

/// Reserve amounts and share supply of a pool, with its fee schedule.
#[derive(Clone, Copy, Debug, PartialEq, Eq)]
pub struct PoolTokenConverter {
    /// Total pool shares issued.
    pub supply: u64,
    /// Reserve of asset A.
    pub token_a: u64,
    /// Reserve of asset B.
    pub token_b: u64,
    /// The pool's fee schedule.
    pub fees: Fees,
}

impl PoolTokenConverter {
    /// What `pool_tokens` shares take from one reserve: the amount paid out,
    /// the withdraw fee and the admin part of that fee. The share is
    /// `reserve * pool_tokens / supply`; a proportional withdrawal keeps the
    /// pool's ratio, so no imbalance fee applies and only the withdraw fee is
    /// taken from it.
    pub open spec fn rate_of(self, reserve: int, pool_tokens: int) -> Option<(int, int, int)> {
        match mul_div_value(pool_tokens, reserve, self.supply as int) {
            Some(amount) => match self.fees.withdraw_fee_of(amount) {
                Some(fee) => match self.fees.admin_withdraw_fee_of(fee) {
                    Some(admin_fee) => if fee <= amount {
                        Some((amount - fee, fee, admin_fee))
                    } else {
                        None
                    },
                    None => None,
                },
                None => None,
            },
            None => None,
        }
    }

    fn rate(&self, reserve: u64, pool_tokens: u64) -> (r: Option<(u64, u64, u64)>)
        ensures
            opt_triple(r) == self.rate_of(reserve as int, pool_tokens as int),
    {
        let amount = mul_div(pool_tokens, reserve, self.supply)?;
        let fee = self.fees.withdraw_fee(amount)?;
        let admin_fee = self.fees.admin_withdraw_fee(fee)?;
        Some((amount.checked_sub(fee)?, fee, admin_fee))
    }

    /// Computes the amount of token A backing the given amount of pool tokens.
    pub fn token_a_rate(&self, pool_tokens: u64) -> (r: Option<(u64, u64, u64)>)
        ensures
            opt_triple(r) == self.rate_of(self.token_a as int, pool_tokens as int),
    {
        self.rate(self.token_a, pool_tokens)
    }

    /// Computes the amount of token B backing the given amount of pool tokens.
    pub fn token_b_rate(&self, pool_tokens: u64) -> (r: Option<(u64, u64, u64)>)
        ensures
            opt_triple(r) == self.rate_of(self.token_b as int, pool_tokens as int),
    {
        self.rate(self.token_b, pool_tokens)
    }
}

} // verus!
