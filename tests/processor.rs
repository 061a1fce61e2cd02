use stable_swap::curve::{StableSwap, SwapResult, MAX_AMP, MIN_AMP, ZERO_TS};
use stable_swap::error::SwapError;
use stable_swap::fees::Fees;
use stable_swap::pool_converter::PoolTokenConverter;
use stable_swap::processor::{
    check_can_withdraw_token, deposit_quote, initialize_mint_amount, swap_quote, withdraw_one_quote,
    withdraw_quote, WithdrawOneResult,
};

fn test_fees() -> Fees {
    Fees {
        admin_trade_fee_numerator: 1,
        admin_trade_fee_denominator: 2,
        admin_withdraw_fee_numerator: 1,
        admin_withdraw_fee_denominator: 2,
        trade_fee_numerator: 6,
        trade_fee_denominator: 100,
        withdraw_fee_numerator: 6,
        withdraw_fee_denominator: 100,
    }
}

fn fixed(amp: u64) -> StableSwap {
    StableSwap::new(amp, amp, ZERO_TS, ZERO_TS, ZERO_TS)
}

#[test]
fn initialize_mints_the_invariant() {
    assert_eq!(initialize_mint_amount(MIN_AMP, 1_000, 2_000), Ok(2_912));
    assert_eq!(initialize_mint_amount(MIN_AMP, 1_000, 1_000), Ok(2_000));
}

#[test]
fn initialize_refuses_bad_coefficients_and_empty_reserves() {
    assert_eq!(initialize_mint_amount(MIN_AMP - 1, 1_000, 2_000), Err(SwapError::InvalidInput));
    assert_eq!(initialize_mint_amount(MAX_AMP + 1, 1_000, 2_000), Err(SwapError::InvalidInput));
    assert_eq!(initialize_mint_amount(MIN_AMP, 0, 2_000), Err(SwapError::EmptySupply));
    assert_eq!(initialize_mint_amount(MIN_AMP, 1_000, 0), Err(SwapError::EmptySupply));
    assert_eq!(
        initialize_mint_amount(MAX_AMP, u64::MAX, u64::MAX),
        Err(SwapError::CalculationFailure)
    );
}

#[test]
fn swap_quote_outcomes() {
    let curve = fixed(85);
    let fees = test_fees();
    assert_eq!(
        swap_quote(&curve, 100, 50, 5_000, 5_000, &fees),
        Ok(Some(SwapResult {
            new_source_amount: 5_100,
            new_destination_amount: 4_903,
            amount_swapped: 94,
            admin_fee: 3,
            fee: 6,
        }))
    );
    assert_eq!(swap_quote(&curve, 0, 50, 5_000, 5_000, &fees), Ok(None));
    assert_eq!(
        swap_quote(&curve, 100, 95, 5_000, 5_000, &fees),
        Err(SwapError::ExceededSlippage)
    );
    assert_eq!(
        swap_quote(&curve, u64::MAX, 0, 5_000, 5_000, &fees),
        Err(SwapError::CalculationFailure)
    );
}

#[test]
fn deposit_quote_outcomes() {
    let curve = fixed(MIN_AMP);
    let fees = test_fees();
    assert_eq!(deposit_quote(&curve, 100, 900, 0, 1_000, 9_000, 7_635, &fees), Ok(Some(764)));
    assert_eq!(deposit_quote(&curve, 0, 0, 0, 1_000, 9_000, 7_635, &fees), Ok(None));
    assert_eq!(
        deposit_quote(&curve, 100, 900, 765, 1_000, 9_000, 7_635, &fees),
        Err(SwapError::ExceededSlippage)
    );
    assert_eq!(
        deposit_quote(&curve, 100, 900, 0, 0, 0, 0, &fees),
        Err(SwapError::CalculationFailure)
    );
}

#[test]
fn withdraw_quote_outcomes() {
    let fees = test_fees();
    let converter = PoolTokenConverter { supply: 2_912, token_a: 1_000, token_b: 2_000, fees };
    assert_eq!(converter.token_a_rate(728), Some((235, 15, 7)));
    assert_eq!(converter.token_b_rate(728), Some((470, 30, 15)));
    assert_eq!(
        withdraw_quote(&converter, 728, 25, 50),
        Ok(Some(((235, 15, 7), (470, 30, 15))))
    );
    assert_eq!(withdraw_quote(&converter, 0, 25, 50), Ok(None));
    assert_eq!(withdraw_quote(&converter, 728, 236, 50), Err(SwapError::ExceededSlippage));
    assert_eq!(withdraw_quote(&converter, 728, 25, 471), Err(SwapError::ExceededSlippage));
    let empty = PoolTokenConverter { supply: 0, token_a: 1_000, token_b: 2_000, fees };
    assert_eq!(withdraw_quote(&empty, 728, 25, 50), Err(SwapError::EmptyPool));
}

#[test]
fn withdraw_token_check() {
    assert_eq!(check_can_withdraw_token(Some((10, 1, 0)), 10), Ok((10, 1, 0)));
    assert_eq!(check_can_withdraw_token(Some((10, 1, 0)), 11), Err(SwapError::ExceededSlippage));
    assert_eq!(check_can_withdraw_token(None, 0), Err(SwapError::CalculationFailure));
}

#[test]
fn withdraw_one_quote_outcomes() {
    let curve = fixed(MIN_AMP);
    let fees = test_fees();
    // before fees 191 with trade fee 4; withdraw fee 11, admin 2 + 5
    assert_eq!(
        withdraw_one_quote(&curve, 200, 0, 2_000, 1_000, 1_000, &fees),
        Ok(Some(WithdrawOneResult { token_amount: 180, admin_fee: 7, trade_fee: 4 }))
    );
    assert_eq!(withdraw_one_quote(&curve, 0, 0, 2_000, 1_000, 1_000, &fees), Ok(None));
    assert_eq!(
        withdraw_one_quote(&curve, 200, 181, 2_000, 1_000, 1_000, &fees),
        Err(SwapError::ExceededSlippage)
    );
    assert_eq!(
        withdraw_one_quote(&curve, 200, 0, 0, 1_000, 1_000, &fees),
        Err(SwapError::CalculationFailure)
    );
}

#[test]
fn withdraw_one_of_every_share_is_refused() {
    let curve = fixed(MIN_AMP);
    let fees = test_fees();
    assert_eq!(
        withdraw_one_quote(&curve, 2_000, 0, 2_000, 1_000, 1_000, &fees),
        Err(SwapError::CalculationFailure)
    );
    let free = Fees {
        admin_trade_fee_numerator: 0,
        admin_trade_fee_denominator: 1,
        admin_withdraw_fee_numerator: 0,
        admin_withdraw_fee_denominator: 1,
        trade_fee_numerator: 0,
        trade_fee_denominator: 1,
        withdraw_fee_numerator: 0,
        withdraw_fee_denominator: 1,
    };
    assert_eq!(
        withdraw_one_quote(&curve, 2_000, 0, 2_000, 1_000, 1_000, &free),
        Err(SwapError::CalculationFailure)
    );
}

#[test]
fn withdraw_one_with_admin_fees_above_the_reserve_is_refused() {
    let curve = fixed(MIN_AMP);
    // an admin share of ten times the fee would take more than the reserve holds
    let greedy = Fees {
        admin_trade_fee_numerator: 10,
        admin_trade_fee_denominator: 1,
        admin_withdraw_fee_numerator: 10,
        admin_withdraw_fee_denominator: 1,
        trade_fee_numerator: 6,
        trade_fee_denominator: 100,
        withdraw_fee_numerator: 50,
        withdraw_fee_denominator: 100,
    };
    assert_eq!(
        withdraw_one_quote(&curve, 1_000, 0, 2_000, 1_000, 1_000, &greedy),
        Err(SwapError::CalculationFailure)
    );
}

#[test]
fn swap_quote_never_empties_the_destination() {
    let curve = fixed(85);
    assert_eq!(
        swap_quote(&curve, 100, 0, 1, 1, &test_fees()),
        Err(SwapError::CalculationFailure)
    );
}
