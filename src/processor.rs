//! The decisions of the pool's instructions: each turns a snapshot of the
//! reserves, the share supply and the fee schedule into the amounts to move,
//! or into the reason to refuse.

use vstd::prelude::*;
use crate::curve::{invariant_of, StableSwap, SwapResult, MAX_AMP, MIN_AMP, ZERO_TS};
use crate::error::SwapError;
use crate::fees::Fees;
use crate::pool_converter::PoolTokenConverter;

verus! {

/// Amounts that a single-asset withdrawal moves out of the base reserve.
#[derive(Clone, Copy, Debug, PartialEq, Eq)]
pub struct WithdrawOneResult {
    /// Paid to the withdrawer.
    pub token_amount: u64,
    /// Paid to the admin fee account.
    pub admin_fee: u64,
    /// Trade fee part of the withdrawal.
    pub trade_fee: u64,
}

/// The shares minted for the first deposit `token_a_amount`,
/// `token_b_amount` into a pool with coefficient `amp_factor`.
pub open spec fn initial_mint_of(amp_factor: int, token_a_amount: int, token_b_amount: int) -> Result<
    u64,
    SwapError,
> {
    if amp_factor < MIN_AMP || amp_factor > MAX_AMP {
        Err(SwapError::InvalidInput)
    } else if token_a_amount == 0 || token_b_amount == 0 {
        Err(SwapError::EmptySupply)
    } else {
        match invariant_of(amp_factor, token_a_amount, token_b_amount) {
            Some(d) => if d <= u64::MAX {
                Ok(d as u64)
            } else {
                Err(SwapError::CalculationFailure)
            },
            None => Err(SwapError::CalculationFailure),
        }
    }
}

/// Checks a new pool's coefficient and reserves, and computes the shares
/// minted to the first depositor: the invariant D of the reserves.
pub fn initialize_mint_amount(amp_factor: u64, token_a_amount: u64, token_b_amount: u64) -> (r:
    Result<u64, SwapError>)
    ensures
        r == initial_mint_of(amp_factor as int, token_a_amount as int, token_b_amount as int),
{
    if amp_factor < MIN_AMP || amp_factor > MAX_AMP {
        return Err(SwapError::InvalidInput);
    }
    if token_b_amount == 0 || token_a_amount == 0 {
        return Err(SwapError::EmptySupply);
    }
    // The coefficient stays fixed until a ramp is configured.
    let curve = StableSwap::new(amp_factor, amp_factor, ZERO_TS, ZERO_TS, ZERO_TS);
    match curve.compute_d(token_a_amount, token_b_amount) {
        Some(d) => match d.to_u64() {
            Some(mint_amount) => Ok(mint_amount),
            None => Err(SwapError::CalculationFailure),
        },
        None => Err(SwapError::CalculationFailure),
    }
}

/// Outcome of a swap request: nothing for a zero amount, else the quote
/// unless it failed or pays less than `minimum_amount_out`.
pub open spec fn swap_outcome(
    quote: Option<SwapResult>,
    amount_in: int,
    minimum_amount_out: int,
) -> Result<Option<SwapResult>, SwapError> {
    if amount_in == 0 {
        Ok(None)
    } else {
        match quote {
            Some(result) => if result.amount_swapped < minimum_amount_out {
                Err(SwapError::ExceededSlippage)
            } else {
                Ok(Some(result))
            },
            None => Err(SwapError::CalculationFailure),
        }
    }
}

/// Decides a swap of `amount_in` from the source reserve into the
/// destination reserve.
pub fn swap_quote(
    curve: &StableSwap,
    amount_in: u64,
    minimum_amount_out: u64,
    swap_source_amount: u64,
    swap_destination_amount: u64,
    fees: &Fees,
) -> (r: Result<Option<SwapResult>, SwapError>)
    ensures
        r == swap_outcome(
            curve.swap_result_of(
                amount_in as int,
                swap_source_amount as int,
                swap_destination_amount as int,
                *fees,
            ),
            amount_in as int,
            minimum_amount_out as int,
        ),
        r matches Ok(Some(res)) ==> res.new_destination_amount > 0 && res.amount_swapped
            + res.admin_fee < swap_destination_amount,
{
    if amount_in == 0 {
        return Ok(None);
    }
    match curve.swap_to(amount_in, swap_source_amount, swap_destination_amount, fees) {
        Some(result) => if result.amount_swapped < minimum_amount_out {
            Err(SwapError::ExceededSlippage)
        } else {
            Ok(Some(result))
        },
        None => Err(SwapError::CalculationFailure),
    }
}

/// Outcome of a deposit request: nothing when both amounts are zero, else
/// the minted shares unless the quote failed or mints less than
/// `min_mint_amount`.
pub open spec fn deposit_outcome(
    quote: Option<int>,
    token_a_amount: int,
    token_b_amount: int,
    min_mint_amount: int,
) -> Result<Option<u64>, SwapError> {
    if token_a_amount == 0 && token_b_amount == 0 {
        Ok(None)
    } else {
        match quote {
            Some(mint_amount) => if mint_amount < min_mint_amount {
                Err(SwapError::ExceededSlippage)
            } else {
                Ok(Some(mint_amount as u64))
            },
            None => Err(SwapError::CalculationFailure),
        }
    }
}

/// Decides a two-asset deposit into reserves `swap_amount_a`,
/// `swap_amount_b` backing `pool_token_supply` shares.
pub fn deposit_quote(
    curve: &StableSwap,
    token_a_amount: u64,
    token_b_amount: u64,
    min_mint_amount: u64,
    swap_amount_a: u64,
    swap_amount_b: u64,
    pool_token_supply: u64,
    fees: &Fees,
) -> (r: Result<Option<u64>, SwapError>)
    ensures
        r == deposit_outcome(
            curve.mint_amount_of(
                token_a_amount as int,
                token_b_amount as int,
                swap_amount_a as int,
                swap_amount_b as int,
                pool_token_supply as int,
                *fees,
            ),
            token_a_amount as int,
            token_b_amount as int,
            min_mint_amount as int,
        ),
{
    if token_a_amount == 0 && token_b_amount == 0 {
        return Ok(None);
    }
    match curve.compute_mint_amount_for_deposit(
        token_a_amount,
        token_b_amount,
        swap_amount_a,
        swap_amount_b,
        pool_token_supply,
        fees,
    ) {
        Some(mint_amount) => if mint_amount < min_mint_amount {
            Err(SwapError::ExceededSlippage)
        } else {
            Ok(Some(mint_amount))
        },
        None => Err(SwapError::CalculationFailure),
    }
}

/// Outcome of one asset's part of a proportional withdrawal.
pub open spec fn withdraw_token_outcome(
    rate: Option<(int, int, int)>,
    minimum_token_amount: int,
) -> Result<(u64, u64, u64), SwapError> {
    match rate {
        Some((amount, fee, admin_fee)) => if amount < minimum_token_amount {
            Err(SwapError::ExceededSlippage)
        } else {
            Ok((amount as u64, fee as u64, admin_fee as u64))
        },
        None => Err(SwapError::CalculationFailure),
    }
}

/// Checks one asset's part of a proportional withdrawal against its minimum.
pub fn check_can_withdraw_token(rate: Option<(u64, u64, u64)>, minimum_token_amount: u64) -> (r:
    Result<(u64, u64, u64), SwapError>)
    ensures
        r == withdraw_token_outcome(
            crate::pool_converter::opt_triple(rate),
            minimum_token_amount as int,
        ),
{
    match rate {
        Some((amount, fee, admin_fee)) => if amount < minimum_token_amount {
            Err(SwapError::ExceededSlippage)
        } else {
            Ok((amount, fee, admin_fee))
        },
        None => Err(SwapError::CalculationFailure),
    }
}

/// Outcome of a proportional withdrawal request: nothing for zero shares,
/// a refusal for a pool without shares, else asset A's part and then asset
/// B's part.
pub open spec fn withdraw_outcome(
    converter: PoolTokenConverter,
    pool_token_amount: int,
    minimum_token_a_amount: int,
    minimum_token_b_amount: int,
) -> Result<Option<((u64, u64, u64), (u64, u64, u64))>, SwapError> {
    if pool_token_amount == 0 {
        Ok(None)
    } else if converter.supply == 0 {
        Err(SwapError::EmptyPool)
    } else {
        match withdraw_token_outcome(
            converter.rate_of(converter.token_a as int, pool_token_amount),
            minimum_token_a_amount,
        ) {
            Ok(a) => match withdraw_token_outcome(
                converter.rate_of(converter.token_b as int, pool_token_amount),
                minimum_token_b_amount,
            ) {
                Ok(b) => Ok(Some((a, b))),
                Err(e) => Err(e),
            },
            Err(e) => Err(e),
        }
    }
}

/// Decides a proportional withdrawal of `pool_token_amount` shares: for each
/// asset, the amount paid out, the withdraw fee and its admin part.
pub fn withdraw_quote(
    converter: &PoolTokenConverter,
    pool_token_amount: u64,
    minimum_token_a_amount: u64,
    minimum_token_b_amount: u64,
) -> (r: Result<Option<((u64, u64, u64), (u64, u64, u64))>, SwapError>)
    ensures
        r == withdraw_outcome(
            *converter,
            pool_token_amount as int,
            minimum_token_a_amount as int,
            minimum_token_b_amount as int,
        ),
{
    if pool_token_amount == 0 {
        return Ok(None);
    }
    if converter.supply == 0 {
        return Err(SwapError::EmptyPool);
    }
    let a = check_can_withdraw_token(converter.token_a_rate(pool_token_amount), minimum_token_a_amount)?;
    let b = check_can_withdraw_token(converter.token_b_rate(pool_token_amount), minimum_token_b_amount)?;
    Ok(Some((a, b)))
}

/// Outcome of a single-asset withdrawal request, from the quote
/// `(amount before fees, trade fee)`: the flat withdraw fee comes off the
/// amount, and the admin takes its share of both fees. What leaves the base
/// reserve must stay below `swap_base_amount`.
pub open spec fn withdraw_one_outcome(
    fees: Fees,
    swap_base_amount: int,
    quote: Option<(int, int)>,
    pool_token_amount: int,
    minimum_token_amount: int,
) -> Result<Option<WithdrawOneResult>, SwapError> {
    if pool_token_amount == 0 {
        Ok(None)
    } else {
        match quote {
            Some((dy, dy_fee)) => match fees.withdraw_fee_of(dy) {
                Some(withdraw_fee) => if withdraw_fee > dy {
                    Err(SwapError::CalculationFailure)
                } else if dy - withdraw_fee < minimum_token_amount {
                    Err(SwapError::ExceededSlippage)
                } else {
                    match (fees.admin_trade_fee_of(dy_fee), fees.admin_withdraw_fee_of(withdraw_fee)) {
                        (Some(admin_trade_fee), Some(admin_withdraw_fee)) => if admin_trade_fee
                            + admin_withdraw_fee > u64::MAX || dy - withdraw_fee + admin_trade_fee
                            + admin_withdraw_fee >= swap_base_amount {
                            Err(SwapError::CalculationFailure)
                        } else {
                            Ok(
                                Some(
                                    WithdrawOneResult {
                                        token_amount: (dy - withdraw_fee) as u64,
                                        admin_fee: (admin_trade_fee + admin_withdraw_fee) as u64,
                                        trade_fee: dy_fee as u64,
                                    },
                                ),
                            )
                        },
                        _ => Err(SwapError::CalculationFailure),
                    }
                },
                None => Err(SwapError::CalculationFailure),
            },
            None => Err(SwapError::CalculationFailure),
        }
    }
}

/// Decides a withdrawal of `pool_token_amount` shares in the base asset alone.
pub fn withdraw_one_quote(
    curve: &StableSwap,
    pool_token_amount: u64,
    minimum_token_amount: u64,
    pool_token_supply: u64,
    swap_base_amount: u64,
    swap_quote_amount: u64,
    fees: &Fees,
) -> (r: Result<Option<WithdrawOneResult>, SwapError>)
    ensures
        r == withdraw_one_outcome(
            *fees,
            swap_base_amount as int,
            curve.withdraw_one_of(
                pool_token_amount as int,
                pool_token_supply as int,
                swap_base_amount as int,
                swap_quote_amount as int,
                *fees,
            ),
            pool_token_amount as int,
            minimum_token_amount as int,
        ),
        r matches Ok(Some(res)) ==> res.token_amount + res.admin_fee < swap_base_amount,
{
    if pool_token_amount == 0 {
        return Ok(None);
    }
    let (dy, dy_fee) = match curve.compute_withdraw_one(
        pool_token_amount,
        pool_token_supply,
        swap_base_amount,
        swap_quote_amount,
        fees,
    ) {
        Some(quote) => quote,
        None => return Err(SwapError::CalculationFailure),
    };
    let withdraw_fee = match fees.withdraw_fee(dy) {
        Some(fee) => fee,
        None => return Err(SwapError::CalculationFailure),
    };
    if withdraw_fee > dy {
        return Err(SwapError::CalculationFailure);
    }
    let token_amount = dy - withdraw_fee;
    if token_amount < minimum_token_amount {
        return Err(SwapError::ExceededSlippage);
    }
    let admin_trade_fee = match fees.admin_trade_fee(dy_fee) {
        Some(fee) => fee,
        None => return Err(SwapError::CalculationFailure),
    };
    let admin_withdraw_fee = match fees.admin_withdraw_fee(withdraw_fee) {
        Some(fee) => fee,
        None => return Err(SwapError::CalculationFailure),
    };
    let admin_fee = match admin_trade_fee.checked_add(admin_withdraw_fee) {
        Some(fee) => fee,
        None => return Err(SwapError::CalculationFailure),
    };
    // What leaves the base reserve must leave some of it behind.
    if token_amount as u128 + admin_fee as u128 >= swap_base_amount as u128 {
        return Err(SwapError::CalculationFailure);
    }
    Ok(Some(WithdrawOneResult { token_amount, admin_fee, trade_fee: dy_fee }))
}

} // verus!
