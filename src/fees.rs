//! The pool's fee schedule, its fee arithmetic and its fixed 64-byte layout.

use vstd::prelude::*;
use vstd::bytes::{spec_u64_from_le_bytes, spec_u64_to_le_bytes, u64_from_le_bytes, u64_to_le_bytes};
use vstd::slice::slice_subrange;
use crate::error::SwapError;
use crate::math::{mul_div, mul_div_imbalanced, mul_div_value, opt_u64};

verus! {

/// Length in bytes of the stored fee schedule.
pub const FEES_LEN: usize = 64;

/// Four fee rates, each a numerator over a denominator.
#[derive(Clone, Copy, Debug, Default, PartialEq, Eq)]
pub struct Fees {
    /// Admin trade fee numerator
    pub admin_trade_fee_numerator: u64,
    /// Admin trade fee denominator
    pub admin_trade_fee_denominator: u64,
    /// Admin withdraw fee numerator
    pub admin_withdraw_fee_numerator: u64,
    /// Admin withdraw fee denominator
    pub admin_withdraw_fee_denominator: u64,
    /// Trade fee numerator
    pub trade_fee_numerator: u64,
    /// Trade fee denominator
    pub trade_fee_denominator: u64,
    /// Withdraw fee numerator
    pub withdraw_fee_numerator: u64,
    /// Withdraw fee denominator
    pub withdraw_fee_denominator: u64,
}

impl Fees {
    pub open spec fn admin_trade_fee_of(self, amount: int) -> Option<int> {
        mul_div_value(
            amount,
            self.admin_trade_fee_numerator as int,
            self.admin_trade_fee_denominator as int,
        )
    }

    pub open spec fn admin_withdraw_fee_of(self, amount: int) -> Option<int> {
        mul_div_value(
            amount,
            self.admin_withdraw_fee_numerator as int,
            self.admin_withdraw_fee_denominator as int,
        )
    }

    pub open spec fn trade_fee_of(self, amount: int) -> Option<int> {
        mul_div_value(amount, self.trade_fee_numerator as int, self.trade_fee_denominator as int)
    }

    pub open spec fn withdraw_fee_of(self, amount: int) -> Option<int> {
        mul_div_value(
            amount,
            self.withdraw_fee_numerator as int,
            self.withdraw_fee_denominator as int,
        )
    }

    /// The trade fee scaled by `n_coins / (4 * (n_coins - 1))`; the factor
    /// `4 * (n_coins - 1)` is computed in 8 bits.
    pub open spec fn normalized_trade_fee_of(self, n_coins: int, amount: int) -> Option<int> {
        if n_coins < 1 || (n_coins - 1) * 4 > u8::MAX {
            None
        } else {
            match mul_div_value(self.trade_fee_numerator as int, n_coins, (n_coins - 1) * 4) {
                Some(adjusted) => mul_div_value(amount, adjusted, self.trade_fee_denominator as int),
                None => None,
            }
        }
    }

    /// Apply admin trade fee
    pub fn admin_trade_fee(&self, fee_amount: u64) -> (r: Option<u64>)
        ensures
            opt_u64(r) == self.admin_trade_fee_of(fee_amount as int),
    {
        mul_div_imbalanced(
            fee_amount,
            self.admin_trade_fee_numerator,
            self.admin_trade_fee_denominator,
        )
    }

    /// Apply admin withdraw fee
    pub fn admin_withdraw_fee(&self, fee_amount: u64) -> (r: Option<u64>)
        ensures
            opt_u64(r) == self.admin_withdraw_fee_of(fee_amount as int),
    {
        mul_div_imbalanced(
            fee_amount,
            self.admin_withdraw_fee_numerator,
            self.admin_withdraw_fee_denominator,
        )
    }

    /// Compute trade fee from amount
    pub fn trade_fee(&self, trade_amount: u64) -> (r: Option<u64>)
        ensures
            opt_u64(r) == self.trade_fee_of(trade_amount as int),
    {
        mul_div_imbalanced(trade_amount, self.trade_fee_numerator, self.trade_fee_denominator)
    }

    /// Compute withdraw fee from amount
    pub fn withdraw_fee(&self, withdraw_amount: u64) -> (r: Option<u64>)
        ensures
            opt_u64(r) == self.withdraw_fee_of(withdraw_amount as int),
    {
        mul_div_imbalanced(
            withdraw_amount,
            self.withdraw_fee_numerator,
            self.withdraw_fee_denominator,
        )
    }

    /// Compute normalized fee for symmetric/asymmetric deposits/withdraws
    pub fn normalized_trade_fee(&self, n_coins: u8, amount: u64) -> (r: Option<u64>)
        ensures
            opt_u64(r) == self.normalized_trade_fee_of(n_coins as int, amount as int),
    {
        // The factor 4 is an empirical calibration of the stable-swap curve.
        let others = n_coins.checked_sub(1)?;
        let scale = others.checked_mul(4)?;
        let adjusted_trade_fee_numerator = mul_div(
            self.trade_fee_numerator,
            n_coins as u64,
            scale as u64,
        )?;
        mul_div(amount, adjusted_trade_fee_numerator, self.trade_fee_denominator)
    }
}

/// The eight words of the stored layout, in their fixed order.
pub open spec fn fees_words(f: Fees) -> Seq<u64> {
    seq![
        f.admin_trade_fee_numerator,
        f.admin_trade_fee_denominator,
        f.admin_withdraw_fee_numerator,
        f.admin_withdraw_fee_denominator,
        f.trade_fee_numerator,
        f.trade_fee_denominator,
        f.withdraw_fee_numerator,
        f.withdraw_fee_denominator,
    ]
}

/// The 64 stored bytes: each word little-endian, in declared order.
pub open spec fn fees_bytes(f: Fees) -> Seq<u8> {
    Seq::new(64, |j: int| spec_u64_to_le_bytes(fees_words(f)[j / 8])[j % 8])
}

/// The word stored at the `i`-th 8-byte slot of `s`.
pub open spec fn word_at(s: Seq<u8>, i: int) -> u64 {
    spec_u64_from_le_bytes(s.subrange(8 * i, 8 * i + 8))
}

/// The fee schedule read from the first 64 bytes of `s`.
pub open spec fn fees_from_bytes(s: Seq<u8>) -> Fees {
    Fees {
        admin_trade_fee_numerator: word_at(s, 0),
        admin_trade_fee_denominator: word_at(s, 1),
        admin_withdraw_fee_numerator: word_at(s, 2),
        admin_withdraw_fee_denominator: word_at(s, 3),
        trade_fee_numerator: word_at(s, 4),
        trade_fee_denominator: word_at(s, 5),
        withdraw_fee_numerator: word_at(s, 6),
        withdraw_fee_denominator: word_at(s, 7),
    }
}

fn read_word(input: &[u8], i: usize) -> (r: u64)
    requires
        i < 8,
        input@.len() >= 64,
    ensures
        r == word_at(input@, i as int),
{
    u64_from_le_bytes(slice_subrange(input, 8 * i, 8 * i + 8))
}

impl Fees {
    /// Length in bytes of the stored fee schedule.
    pub const LEN: usize = FEES_LEN;

    /// Writes the 64-byte layout at the start of `output`, leaving the rest of
    /// it as it was.
    pub fn pack_into_slice(&self, output: &mut [u8])
        requires
            old(output)@.len() >= FEES_LEN,
        ensures
            final(output)@.len() == old(output)@.len(),
            final(output)@.subrange(0, 64) == fees_bytes(*self),
            final(output)@.subrange(64, final(output)@.len() as int) == old(output)@.subrange(
                64,
                old(output)@.len() as int,
            ),
    {
        let words: [u64; 8] = [
            self.admin_trade_fee_numerator,
            self.admin_trade_fee_denominator,
            self.admin_withdraw_fee_numerator,
            self.admin_withdraw_fee_denominator,
            self.trade_fee_numerator,
            self.trade_fee_denominator,
            self.withdraw_fee_numerator,
            self.withdraw_fee_denominator,
        ];
        assert(words@ == fees_words(*self));
        let ghost before = output@;
        let mut w: usize = 0;
        while w < 8
            invariant
                w <= 8,
                words@ == fees_words(*self),
                output@.len() == before.len(),
                before.len() >= 64,
                forall|j: int| 0 <= j < 8 * w ==> output@[j] == #[trigger] fees_bytes(*self)[j],
                forall|j: int| 8 * w <= j < output@.len() ==> output@[j] == #[trigger] before[j],
            decreases 8 - w,
        {
            let bytes = u64_to_le_bytes(words[w]);
            let mut b: usize = 0;
            while b < 8
                invariant
                    w < 8,
                    b <= 8,
                    words@ == fees_words(*self),
                    bytes@ == spec_u64_to_le_bytes(words@[w as int]),
                    bytes@.len() == 8,
                    output@.len() == before.len(),
                    before.len() >= 64,
                    forall|j: int| 0 <= j < 8 * w + b ==> output@[j] == #[trigger] fees_bytes(*self)[j],
                    forall|j: int| 8 * w + b <= j < output@.len() ==> output@[j] == #[trigger] before[j],
                decreases 8 - b,
            {
                output[8 * w + b] = bytes[b];
                proof {
                    let j = 8 * w + b;
                    assert(j / 8 == w as int && j % 8 == b as int);
                }
                b = b + 1;
            }
            w = w + 1;
        }
        assert(output@.subrange(0, 64) =~= fees_bytes(*self));
        assert(output@.subrange(64, output@.len() as int) =~= before.subrange(64, before.len() as int));
    }

    /// Reads a fee schedule from the first 64 bytes of `input`; a shorter
    /// input is refused.
    pub fn unpack_from_slice(input: &[u8]) -> (r: Result<Fees, SwapError>)
        ensures
            input@.len() < FEES_LEN ==> r == Err::<Fees, SwapError>(SwapError::InvalidAccountData),
            input@.len() >= FEES_LEN ==> r == Ok::<Fees, SwapError>(fees_from_bytes(input@)),
    {
        if input.len() < FEES_LEN {
            return Err(SwapError::InvalidAccountData);
        }
        Ok(Fees {
            admin_trade_fee_numerator: read_word(input, 0),
            admin_trade_fee_denominator: read_word(input, 1),
            admin_withdraw_fee_numerator: read_word(input, 2),
            admin_withdraw_fee_denominator: read_word(input, 3),
            trade_fee_numerator: read_word(input, 4),
            trade_fee_denominator: read_word(input, 5),
            withdraw_fee_numerator: read_word(input, 6),
            withdraw_fee_denominator: read_word(input, 7),
        })
    }
}

/// Reading back the stored layout of a fee schedule gives that schedule.
pub proof fn lemma_fees_layout_round_trip(f: Fees)
    ensures
        fees_from_bytes(fees_bytes(f)) == f,
{
    vstd::bytes::lemma_auto_spec_u64_to_from_le_bytes();
    let s = fees_bytes(f);
    assert forall|i: int| 0 <= i < 8 implies #[trigger] word_at(s, i) == fees_words(f)[i] by {
        assert(s.subrange(8 * i, 8 * i + 8) =~= spec_u64_to_le_bytes(fees_words(f)[i]));
    }
    assert(word_at(s, 0) == fees_words(f)[0]);
    assert(word_at(s, 1) == fees_words(f)[1]);
    assert(word_at(s, 2) == fees_words(f)[2]);
    assert(word_at(s, 3) == fees_words(f)[3]);
    assert(word_at(s, 4) == fees_words(f)[4]);
    assert(word_at(s, 5) == fees_words(f)[5]);
    assert(word_at(s, 6) == fees_words(f)[6]);
    assert(word_at(s, 7) == fees_words(f)[7]);
}

} // verus!
