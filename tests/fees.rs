use stable_swap::error::SwapError;
use stable_swap::fees::Fees;
use stable_swap::math::{mul_div, mul_div_imbalanced};

fn sample_fees() -> Fees {
    Fees {
        admin_trade_fee_numerator: 1,
        admin_trade_fee_denominator: 2,
        admin_withdraw_fee_numerator: 3,
        admin_withdraw_fee_denominator: 4,
        trade_fee_numerator: 5,
        trade_fee_denominator: 6,
        withdraw_fee_numerator: 7,
        withdraw_fee_denominator: 8,
    }
}

#[test]
fn pack_fees() {
    let admin_trade_fee_numerator: u64 = 1;
    let admin_trade_fee_denominator: u64 = 2;
    let admin_withdraw_fee_numerator: u64 = 3;
    let admin_withdraw_fee_denominator: u64 = 4;
    let trade_fee_numerator: u64 = 5;
    let trade_fee_denominator: u64 = 6;
    let withdraw_fee_numerator: u64 = 7;
    let withdraw_fee_denominator: u64 = 8;
    let fees = Fees {
        admin_trade_fee_numerator,
        admin_trade_fee_denominator,
        admin_withdraw_fee_numerator,
        admin_withdraw_fee_denominator,
        trade_fee_numerator,
        trade_fee_denominator,
        withdraw_fee_numerator,
        withdraw_fee_denominator,
    };

    let mut packed = [0u8; Fees::LEN];
    fees.pack_into_slice(&mut packed[..]);
    let unpacked = Fees::unpack_from_slice(&packed).unwrap();
    assert_eq!(fees, unpacked);

    let mut packed = vec![];
    packed.extend_from_slice(&admin_trade_fee_numerator.to_le_bytes());
    packed.extend_from_slice(&admin_trade_fee_denominator.to_le_bytes());
    packed.extend_from_slice(&admin_withdraw_fee_numerator.to_le_bytes());
    packed.extend_from_slice(&admin_withdraw_fee_denominator.to_le_bytes());
    packed.extend_from_slice(&trade_fee_numerator.to_le_bytes());
    packed.extend_from_slice(&trade_fee_denominator.to_le_bytes());
    packed.extend_from_slice(&withdraw_fee_numerator.to_le_bytes());
    packed.extend_from_slice(&withdraw_fee_denominator.to_le_bytes());
    let unpacked = Fees::unpack_from_slice(&packed).unwrap();
    assert_eq!(fees, unpacked);
}

#[test]
fn fee_results() {
    let admin_trade_fee_numerator: u64 = 1;
    let admin_trade_fee_denominator: u64 = 2;
    let admin_withdraw_fee_numerator: u64 = 3;
    let admin_withdraw_fee_denominator: u64 = 4;
    let trade_fee_numerator: u64 = 5;
    let trade_fee_denominator: u64 = 6;
    let withdraw_fee_numerator: u64 = 7;
    let withdraw_fee_denominator: u64 = 8;
    let fees = Fees {
        admin_trade_fee_numerator,
        admin_trade_fee_denominator,
        admin_withdraw_fee_numerator,
        admin_withdraw_fee_denominator,
        trade_fee_numerator,
        trade_fee_denominator,
        withdraw_fee_numerator,
        withdraw_fee_denominator,
    };

    let trade_amount: u64 = 1_000_000_000;
    let expected_trade_fee = trade_amount * trade_fee_numerator / trade_fee_denominator;
    let trade_fee = fees.trade_fee(trade_amount).unwrap();
    assert_eq!(trade_fee, expected_trade_fee);
    let expected_admin_trade_fee =
        expected_trade_fee * admin_trade_fee_numerator / admin_trade_fee_denominator;
    assert_eq!(fees.admin_trade_fee(trade_fee).unwrap(), expected_admin_trade_fee);

    let withdraw_amount: u64 = 100_000_000_000;
    let expected_withdraw_fee = withdraw_amount * withdraw_fee_numerator / withdraw_fee_denominator;
    let withdraw_fee = fees.withdraw_fee(withdraw_amount).unwrap();
    assert_eq!(withdraw_fee, expected_withdraw_fee);
    let expected_admin_withdraw_fee =
        expected_withdraw_fee * admin_withdraw_fee_numerator / admin_withdraw_fee_denominator;
    assert_eq!(fees.admin_withdraw_fee(expected_withdraw_fee).unwrap(), expected_admin_withdraw_fee);

    let n_coins: u8 = 2;
    let adjusted_trade_fee_numerator: u64 =
        trade_fee_numerator * (n_coins as u64) / (4 * ((n_coins as u64) - 1));
    let expected_normalized_fee = trade_amount * adjusted_trade_fee_numerator / trade_fee_denominator;
    assert_eq!(fees.normalized_trade_fee(n_coins, trade_amount).unwrap(), expected_normalized_fee);
}

#[test]
fn fee_example_values() {
    let fees = sample_fees();
    assert_eq!(fees.trade_fee(1_000_000_000), Some(833_333_333));
    assert_eq!(fees.admin_trade_fee(833_333_333), Some(416_666_666));
    assert_eq!(fees.withdraw_fee(1_000), Some(875));
    assert_eq!(fees.admin_withdraw_fee(875), Some(656));
}

#[test]
fn normalized_fee_uses_the_coin_count() {
    let fees = sample_fees();
    // 5 * 2 / 4 = 2, then 1e9 * 2 / 6
    assert_eq!(fees.normalized_trade_fee(2, 1_000_000_000), Some(333_333_333));
    // 5 * 3 / 8 = 1, then 1e9 * 1 / 6
    assert_eq!(fees.normalized_trade_fee(3, 1_000_000_000), Some(166_666_666));
    assert_eq!(fees.normalized_trade_fee(0, 1_000_000_000), None);
    assert_eq!(fees.normalized_trade_fee(1, 1_000_000_000), None);
    // 4 * (65 - 1) does not fit in eight bits
    assert_eq!(fees.normalized_trade_fee(65, 1_000_000_000), None);
}

#[test]
fn zero_denominator_gives_no_fee() {
    let fees = Fees::default();
    assert_eq!(fees.trade_fee(100), None);
    assert_eq!(fees.admin_trade_fee(100), None);
    assert_eq!(fees.withdraw_fee(100), None);
    assert_eq!(fees.admin_withdraw_fee(100), None);
}

#[test]
fn mul_div_widens_the_product() {
    let big: u64 = 10_000_000_000_000_000_000;
    assert_eq!(mul_div(big, big, big), Some(big));
    assert_eq!(mul_div_imbalanced(big, big, big), Some(big));
    assert_eq!(mul_div(7, 3, 2), Some(10));
    assert_eq!(mul_div(1 << 63, 4, 2), None);
    assert_eq!(mul_div(5, 5, 0), None);
    assert_eq!(mul_div_imbalanced(u64::MAX, u64::MAX, u64::MAX), Some(u64::MAX));
}

#[test]
fn short_layout_is_refused() {
    let bytes = [0u8; 63];
    assert_eq!(Fees::unpack_from_slice(&bytes), Err(SwapError::InvalidAccountData));
}

#[test]
fn layout_is_little_endian_in_field_order() {
    let fees = Fees {
        admin_trade_fee_numerator: 0x0102,
        admin_trade_fee_denominator: 2,
        admin_withdraw_fee_numerator: 3,
        admin_withdraw_fee_denominator: 4,
        trade_fee_numerator: 5,
        trade_fee_denominator: 6,
        withdraw_fee_numerator: 7,
        withdraw_fee_denominator: u64::MAX,
    };
    let mut packed = [0xAAu8; 70];
    fees.pack_into_slice(&mut packed[..]);
    assert_eq!(packed[0], 0x02);
    assert_eq!(packed[1], 0x01);
    assert_eq!(packed[2], 0);
    assert_eq!(packed[8], 2);
    assert_eq!(packed[32], 5);
    assert_eq!(&packed[56..64], &[0xFFu8; 8]);
    assert_eq!(&packed[64..70], &[0xAAu8; 6]);
    assert_eq!(Fees::unpack_from_slice(&packed), Ok(fees));
}
