//! The stable-swap curve: the amplification ramp, the invariant solver and
//! the swap, deposit and single-asset withdrawal quotes that rest on it.

use vstd::prelude::*;
use crate::bn::{narrow, opt_view, wide_add, wide_div, wide_mul, wide_sub, U192};
use crate::fees::Fees;
use crate::math::opt_u64;

verus! {

/// Smallest amplification coefficient the pool accepts.
pub const MIN_AMP: u64 = 1;

/// Largest amplification coefficient the pool accepts.
pub const MAX_AMP: u64 = 1_000_000;

/// Timestamp meaning that no ramp is configured.
pub const ZERO_TS: i64 = 0;

/// Number of assets in the pool.
pub const N_COINS: u8 = 2;

/// Iteration budget of each Newton-Raphson solver.
pub const MAX_ITERATIONS: usize = 256;

/// Whether two successive iterates differ by at most one unit.
pub open spec fn converged(prev: int, next: int) -> bool {
    -1 <= next - prev <= 1
}

/// One Newton-Raphson step towards the invariant of reserves `a` and `b`,
/// with `ann = amp * n_coins`:
/// `d' = (ann * S + d_prod * n) * d / ((ann - 1) * d + (n + 1) * d_prod)`,
/// where `d_prod = d^3 / (n^n * a * b)` is taken in two floored steps.
pub open spec fn d_next(ann: int, a: int, b: int, d: int) -> Option<int> {
    let d_prod = wide_div(
        wide_mul(wide_div(wide_mul(Some(d), Some(d)), Some(a * 2)), Some(d)),
        Some(b * 2),
    );
    let numerator = wide_mul(Some(d), wide_add(wide_mul(d_prod, Some(2)), Some((a + b) * ann)));
    let denominator = wide_add(wide_mul(Some(d), Some(ann - 1)), wide_mul(d_prod, Some(3)));
    wide_div(numerator, denominator)
}

/// Runs at most `fuel` invariant steps from `d`, stopping once two iterates
/// agree within one unit; the last iterate stands when the budget runs out.
pub open spec fn d_iterate(ann: int, a: int, b: int, d: int, fuel: nat) -> Option<int>
    decreases fuel,
{
    if fuel == 0 {
        Some(d)
    } else {
        match d_next(ann, a, b, d) {
            Some(next) => if converged(d, next) {
                Some(next)
            } else {
                d_iterate(ann, a, b, next, (fuel - 1) as nat)
            },
            None => None,
        }
    }
}

/// The invariant D of reserves `a` and `b` under coefficient `amp`, starting
/// the iteration from the sum of the reserves.
pub open spec fn invariant_of(amp: int, a: int, b: int) -> Option<int> {
    if a + b == 0 {
        Some(0)
    } else if amp == 0 {
        None
    } else {
        d_iterate(amp * 2, a, b, a + b, MAX_ITERATIONS as nat)
    }
}

/// One Newton-Raphson step of `y^2 + (b - d) * y = c`:
/// `y' = (y^2 + c) / (2 * y + b - d)`.
pub open spec fn y_next(b: int, c: int, d: int, y: int) -> Option<int> {
    wide_div(
        wide_add(wide_mul(Some(y), Some(y)), Some(c)),
        wide_sub(wide_add(wide_mul(Some(y), Some(2)), Some(b)), Some(d)),
    )
}

/// Runs at most `fuel` steps of `y_next` from `y`, stopping at convergence.
pub open spec fn y_iterate(b: int, c: int, d: int, y: int, fuel: nat) -> Option<int>
    decreases fuel,
{
    if fuel == 0 {
        Some(y)
    } else {
        match y_next(b, c, d, y) {
            Some(next) => if converged(y, next) {
                Some(next)
            } else {
                y_iterate(b, c, d, next, (fuel - 1) as nat)
            },
            None => None,
        }
    }
}

/// The balance of one asset that keeps invariant `d` when the other asset's
/// balance is `x`, before narrowing to 64 bits.
pub open spec fn balance_for_raw(amp: int, x: int, d: int) -> Option<int> {
    let ann = amp * 2;
    let c = wide_div(
        wide_mul(wide_div(wide_mul(Some(d), Some(d)), Some(x * 2)), Some(d)),
        Some(ann * 2),
    );
    let b = wide_add(wide_div(Some(d), Some(ann)), Some(x));
    match (c, b) {
        (Some(c), Some(b)) => y_iterate(b, c, d, d, MAX_ITERATIONS as nat),
        _ => None,
    }
}

/// `balance_for_raw` narrowed to 64 bits.
pub open spec fn balance_for(amp: int, x: int, d: int) -> Option<int> {
    narrow(balance_for_raw(amp, x, d))
}

/// The outcome of a swap: what the trader receives, the fees taken, and the
/// reserves the trade leaves behind.
#[derive(Clone, Copy, Debug, PartialEq, Eq)]
pub struct SwapResult {
    /// New amount of source token
    pub new_source_amount: u64,
    /// New amount of destination token
    pub new_destination_amount: u64,
    /// Amount of destination token swapped
    pub amount_swapped: u64,
    /// Admin fee for the swap
    pub admin_fee: u64,
    /// Fee for the swap
    pub fee: u64,
}

/// A result kept only when it is positive: a reserve that a quote would
/// leave at zero is refused.
pub open spec fn positive(x: Option<int>) -> Option<int> {
    match x {
        Some(v) => if v > 0 {
            Some(v)
        } else {
            None
        },
        None => None,
    }
}

/// The pair held by an optional pair of 64-bit results.
pub open spec fn opt_pair(r: Option<(u64, u64)>) -> Option<(int, int)> {
    match r {
        Some((a, b)) => Some((a as int, b as int)),
        None => None,
    }
}

/// A deposited balance less the normalized trade fee on its distance from
/// the ideal balance `d1 * old_balance / d0`.
pub open spec fn adjusted_balance(
    fees: Fees,
    d0: int,
    d1: int,
    old_balance: int,
    new_balance: int,
) -> Option<int> {
    match narrow(wide_div(wide_mul(Some(d1), Some(old_balance)), Some(d0))) {
        Some(ideal) => {
            let difference = if ideal > new_balance {
                ideal - new_balance
            } else {
                new_balance - ideal
            };
            wide_sub(Some(new_balance), fees.normalized_trade_fee_of(N_COINS as int, difference))
        },
        None => None,
    }
}

/// The amplification state of a pool at one instant.
#[derive(Clone, Copy, Debug, PartialEq, Eq)]
pub struct StableSwap {
    /// Coefficient at the start of the ramp.
    pub initial_amp_factor: u64,
    /// Coefficient at the end of the ramp.
    pub target_amp_factor: u64,
    /// The instant the quote is computed for.
    pub current_ts: i64,
    /// Start of the ramp.
    pub start_ramp_ts: i64,
    /// End of the ramp.
    pub stop_ramp_ts: i64,
}

proof fn lemma_scaled_delta(range: int, elapsed: int, duration: int)
    by (nonlinear_arith)
    requires
        0 <= range <= u64::MAX,
        0 <= elapsed < duration <= u64::MAX,
    ensures
        0 <= range * elapsed <= u64::MAX * u64::MAX,
        0 <= range * elapsed / duration <= range,
{
    assert(range * elapsed <= range * duration);
    assert(range * elapsed <= u64::MAX * u64::MAX);
    assert(range * elapsed / duration <= range * duration / duration);
}

impl StableSwap {
    pub fn new(
        initial_amp_factor: u64,
        target_amp_factor: u64,
        current_ts: i64,
        start_ramp_ts: i64,
        stop_ramp_ts: i64,
    ) -> (r: StableSwap)
        ensures
            r == (StableSwap {
                initial_amp_factor,
                target_amp_factor,
                current_ts,
                start_ramp_ts,
                stop_ramp_ts,
            }),
    {
        StableSwap { initial_amp_factor, target_amp_factor, current_ts, start_ramp_ts, stop_ramp_ts }
    }

    /// The effective coefficient: the target outside the ramp window, and the
    /// floored linear interpolation between initial and target inside it.
    pub open spec fn amp_factor(self) -> int {
        if self.start_ramp_ts <= self.current_ts < self.stop_ramp_ts {
            let elapsed = self.current_ts - self.start_ramp_ts;
            let duration = self.stop_ramp_ts - self.start_ramp_ts;
            if self.target_amp_factor >= self.initial_amp_factor {
                self.initial_amp_factor + (self.target_amp_factor - self.initial_amp_factor)
                    * elapsed / duration
            } else {
                self.initial_amp_factor - (self.initial_amp_factor - self.target_amp_factor)
                    * elapsed / duration
            }
        } else {
            self.target_amp_factor as int
        }
    }

    /// The swap of `source_amount` into a pool holding `swap_source_amount` and
    /// `swap_destination_amount`: the raw output keeps the invariant, the
    /// trade fee is taken from it, and the admin share of that fee leaves the
    /// destination reserve beside the trader's amount. A trade is refused when
    /// the solved destination balance, or the reserve it leaves, is zero: the
    /// destination reserve is never emptied.
    pub open spec fn swap_result_of(
        self,
        source_amount: int,
        swap_source_amount: int,
        swap_destination_amount: int,
        fees: Fees,
    ) -> Option<SwapResult> {
        let amp = self.amp_factor();
        let new_source = narrow(Some(swap_source_amount + source_amount));
        let y = match (new_source, invariant_of(amp, swap_source_amount, swap_destination_amount)) {
            (Some(x), Some(d)) => positive(balance_for(amp, x, d)),
            _ => None,
        };
        let dy = wide_sub(Some(swap_destination_amount), y);
        let dy_fee = match dy {
            Some(v) => fees.trade_fee_of(v),
            None => None,
        };
        let admin_fee = match dy_fee {
            Some(v) => fees.admin_trade_fee_of(v),
            None => None,
        };
        let amount_swapped = wide_sub(dy, dy_fee);
        let new_destination = positive(
            wide_sub(wide_sub(Some(swap_destination_amount), amount_swapped), admin_fee),
        );
        match (new_source, new_destination, amount_swapped, admin_fee, dy_fee) {
            (Some(ns), Some(nd), Some(sw), Some(af), Some(f)) => Some(
                SwapResult {
                    new_source_amount: ns as u64,
                    new_destination_amount: nd as u64,
                    amount_swapped: sw as u64,
                    admin_fee: af as u64,
                    fee: f as u64,
                },
            ),
            _ => None,
        }
    }

    /// The pool shares minted for depositing `deposit_amount_a` and
    /// `deposit_amount_b`: `supply * (d2 - d0) / d0`, where `d2` is the
    /// invariant of the deposited reserves after the imbalance fee.
    pub open spec fn mint_amount_of(
        self,
        deposit_amount_a: int,
        deposit_amount_b: int,
        swap_amount_a: int,
        swap_amount_b: int,
        pool_token_supply: int,
        fees: Fees,
    ) -> Option<int> {
        let amp = self.amp_factor();
        match (
            invariant_of(amp, swap_amount_a, swap_amount_b),
            narrow(Some(swap_amount_a + deposit_amount_a)),
            narrow(Some(swap_amount_b + deposit_amount_b)),
        ) {
            (Some(d0), Some(new_a), Some(new_b)) => match invariant_of(amp, new_a, new_b) {
                Some(d1) => if d1 <= d0 {
                    None
                } else {
                    match (
                        adjusted_balance(fees, d0, d1, swap_amount_a, new_a),
                        adjusted_balance(fees, d0, d1, swap_amount_b, new_b),
                    ) {
                        (Some(adj_a), Some(adj_b)) => match invariant_of(amp, adj_a, adj_b) {
                            Some(d2) => narrow(
                                wide_div(
                                    wide_mul(Some(pool_token_supply), wide_sub(Some(d2), Some(d0))),
                                    Some(d0),
                                ),
                            ),
                            None => None,
                        },
                        _ => None,
                    }
                },
                None => None,
            },
            _ => None,
        }
    }

    /// Withdrawal of `pool_token_amount` shares entirely in the base asset:
    /// the amount before the flat withdraw fee, and the trade fee part of it.
    /// The withdrawal is refused when the reduced invariant solves the base
    /// balance to zero, as burning the whole supply does: the base reserve is
    /// never emptied.
    pub open spec fn withdraw_one_of(
        self,
        pool_token_amount: int,
        pool_token_supply: int,
        swap_base_amount: int,
        swap_quote_amount: int,
        fees: Fees,
    ) -> Option<(int, int)> {
        let amp = self.amp_factor();
        match invariant_of(amp, swap_base_amount, swap_quote_amount) {
            Some(d0) => match wide_sub(
                Some(d0),
                wide_div(wide_mul(Some(pool_token_amount), Some(d0)), Some(pool_token_supply)),
            ) {
                Some(d1) => {
                    let new_y = positive(balance_for(amp, swap_quote_amount, d1));
                    let expected_base = wide_sub(
                        narrow(wide_div(wide_mul(Some(swap_base_amount), Some(d1)), Some(d0))),
                        new_y,
                    );
                    let expected_quote = wide_sub(
                        Some(swap_quote_amount),
                        narrow(wide_div(wide_mul(Some(swap_quote_amount), Some(d1)), Some(d0))),
                    );
                    let base_fee = match expected_base {
                        Some(v) => fees.normalized_trade_fee_of(N_COINS as int, v),
                        None => None,
                    };
                    let quote_fee = match expected_quote {
                        Some(v) => fees.normalized_trade_fee_of(N_COINS as int, v),
                        None => None,
                    };
                    let new_base = wide_sub(Some(swap_base_amount), base_fee);
                    let new_quote = wide_sub(Some(swap_quote_amount), quote_fee);
                    let y_after_fee = match new_quote {
                        Some(q) => balance_for(amp, q, d1),
                        None => None,
                    };
                    let dy = wide_sub(new_base, y_after_fee);
                    let dy_0 = wide_sub(Some(swap_base_amount), new_y);
                    match (dy, wide_sub(dy_0, dy)) {
                        (Some(amount), Some(fee)) => Some((amount, fee)),
                        _ => None,
                    }
                },
                None => None,
            },
            None => None,
        }
    }

    /// Computes the effective amplification coefficient at `current_ts`.
    pub fn compute_amp_factor(&self) -> (r: u64)
        ensures
            r == self.amp_factor(),
    {
        if self.start_ramp_ts <= self.current_ts && self.current_ts < self.stop_ramp_ts {
            let elapsed = (self.current_ts as i128 - self.start_ramp_ts as i128) as u128;
            let duration = (self.stop_ramp_ts as i128 - self.start_ramp_ts as i128) as u128;
            if self.target_amp_factor >= self.initial_amp_factor {
                let range = self.target_amp_factor - self.initial_amp_factor;
                proof {
                    lemma_scaled_delta(range as int, elapsed as int, duration as int);
                }
                let delta = (range as u128) * elapsed / duration;
                self.initial_amp_factor + delta as u64
            } else {
                let range = self.initial_amp_factor - self.target_amp_factor;
                proof {
                    lemma_scaled_delta(range as int, elapsed as int, duration as int);
                }
                let delta = (range as u128) * elapsed / duration;
                self.initial_amp_factor - delta as u64
            }
        } else {
            self.target_amp_factor
        }
    }

    /// One invariant step, computed in 192-bit arithmetic.
    fn next_d(ann: U192, amount_a: u64, amount_b: u64, d: U192) -> (r: Option<U192>)
        requires
            1 <= ann@ <= 2 * u64::MAX,
        ensures
            opt_view(r) == d_next(ann@ as int, amount_a as int, amount_b as int, d@ as int),
    {
        let two = U192::from_u64(2);
        let sum_x = U192::from_u64(amount_a).checked_add(U192::from_u64(amount_b))?;
        let a_times_coins = U192::from_u64(amount_a).checked_mul(two)?;
        let b_times_coins = U192::from_u64(amount_b).checked_mul(two)?;
        proof {
            assert((amount_a + amount_b) * ann@ < crate::bn::wide_limit()) by (nonlinear_arith)
                requires
                    amount_a + amount_b <= 2 * (u64::MAX as int),
                    0 <= ann@ <= 2 * (u64::MAX as int),
            ;
        }
        let leverage = sum_x.checked_mul(ann)?;
        let mut d_prod = d.checked_mul(d)?.checked_div(a_times_coins)?;
        d_prod = d_prod.checked_mul(d)?.checked_div(b_times_coins)?;
        let numerator = d.checked_mul(d_prod.checked_mul(two)?.checked_add(leverage)?)?;
        let ann_minus_one = ann.checked_sub(U192::from_u64(1))?;
        let denominator = d.checked_mul(ann_minus_one)?.checked_add(
            d_prod.checked_mul(U192::from_u64(3))?,
        )?;
        numerator.checked_div(denominator)
    }

    /// Computes the invariant D of reserves `amount_a` and `amount_b` by
    /// Newton-Raphson iteration from their sum.
    pub fn compute_d(&self, amount_a: u64, amount_b: u64) -> (r: Option<U192>)
        ensures
            opt_view(r) == invariant_of(self.amp_factor(), amount_a as int, amount_b as int),
    {
        let sum_x = U192::from_u64(amount_a).checked_add(U192::from_u64(amount_b))?;
        if sum_x.is_zero() {
            return Some(sum_x);
        }
        let amp_factor = self.compute_amp_factor();
        if amp_factor == 0 {
            return None;
        }
        let ann = U192::from_u64(amp_factor).checked_mul(U192::from_u64(2))?;
        let ghost start = d_iterate(
            ann@ as int,
            amount_a as int,
            amount_b as int,
            sum_x@ as int,
            MAX_ITERATIONS as nat,
        );
        let mut d = sum_x;
        let mut i: usize = 0;
        while i < MAX_ITERATIONS
            invariant
                i <= MAX_ITERATIONS,
                1 <= ann@ <= 2 * u64::MAX,
                ann@ == amp_factor * 2,
                amp_factor == self.amp_factor(),
                start == invariant_of(self.amp_factor(), amount_a as int, amount_b as int),
                start == d_iterate(
                    ann@ as int,
                    amount_a as int,
                    amount_b as int,
                    d@ as int,
                    (MAX_ITERATIONS - i) as nat,
                ),
            decreases MAX_ITERATIONS - i,
        {
            let next = Self::next_d(ann, amount_a, amount_b, d)?;
            if next.within_one(d) {
                return Some(next);
            }
            d = next;
            i = i + 1;
        }
        Some(d)
    }

    /// Solves for the balance of one asset that keeps invariant `d` when the
    /// other asset's balance is `x`, in 192-bit precision.
    pub fn compute_y_raw(&self, x: u64, d: U192) -> (r: Option<U192>)
        ensures
            opt_view(r) == balance_for_raw(self.amp_factor(), x as int, d@ as int),
    {
        let amp_factor = self.compute_amp_factor();
        let two = U192::from_u64(2);
        let ann = U192::from_u64(amp_factor).checked_mul(two)?;
        // c = D^(n+1) / (n^(2n) * prod' * A)
        let mut c = d.checked_mul(d)?.checked_div(U192::from_u64(x).checked_mul(two)?)?;
        c = c.checked_mul(d)?.checked_div(ann.checked_mul(two)?)?;
        // b = sum' + D / (A * n^n); D itself is subtracted in each step
        let b = d.checked_div(ann)?.checked_add(U192::from_u64(x))?;
        let ghost start = y_iterate(b@ as int, c@ as int, d@ as int, d@ as int, MAX_ITERATIONS as nat);
        let mut y = d;
        let mut i: usize = 0;
        while i < MAX_ITERATIONS
            invariant
                i <= MAX_ITERATIONS,
                two@ == 2,
                start == balance_for_raw(self.amp_factor(), x as int, d@ as int),
                start == y_iterate(
                    b@ as int,
                    c@ as int,
                    d@ as int,
                    y@ as int,
                    (MAX_ITERATIONS - i) as nat,
                ),
            decreases MAX_ITERATIONS - i,
        {
            let numerator = y.checked_mul(y)?.checked_add(c)?;
            let denominator = y.checked_mul(two)?.checked_add(b)?.checked_sub(d)?;
            let next = numerator.checked_div(denominator)?;
            if next.within_one(y) {
                return Some(next);
            }
            y = next;
            i = i + 1;
        }
        Some(y)
    }

    /// `compute_y_raw` narrowed to 64 bits.
    pub fn compute_y(&self, x: u64, d: U192) -> (r: Option<u64>)
        ensures
            opt_u64(r) == balance_for(self.amp_factor(), x as int, d@ as int),
    {
        self.compute_y_raw(x, d)?.to_u64()
    }

    /// Quotes a swap of `source_amount` into the pool.
    pub fn swap_to(
        &self,
        source_amount: u64,
        swap_source_amount: u64,
        swap_destination_amount: u64,
        fees: &Fees,
    ) -> (r: Option<SwapResult>)
        ensures
            r == self.swap_result_of(
                source_amount as int,
                swap_source_amount as int,
                swap_destination_amount as int,
                *fees,
            ),
            r matches Some(res) ==> res.new_destination_amount > 0 && res.amount_swapped
                + res.admin_fee < swap_destination_amount,
    {
        let new_source_amount = swap_source_amount.checked_add(source_amount)?;
        let d = self.compute_d(swap_source_amount, swap_destination_amount)?;
        let y = self.compute_y(new_source_amount, d)?;
        if y == 0 {
            return None;
        }
        let dy = swap_destination_amount.checked_sub(y)?;
        let dy_fee = fees.trade_fee(dy)?;
        let admin_fee = fees.admin_trade_fee(dy_fee)?;
        let amount_swapped = dy.checked_sub(dy_fee)?;
        let new_destination_amount = swap_destination_amount.checked_sub(
            amount_swapped,
        )?.checked_sub(admin_fee)?;
        if new_destination_amount == 0 {
            return None;
        }
        Some(
            SwapResult {
                new_source_amount,
                new_destination_amount,
                amount_swapped,
                admin_fee,
                fee: dy_fee,
            },
        )
    }

    /// Quotes the pool shares minted for a two-asset deposit.
    pub fn compute_mint_amount_for_deposit(
        &self,
        deposit_amount_a: u64,
        deposit_amount_b: u64,
        swap_amount_a: u64,
        swap_amount_b: u64,
        pool_token_supply: u64,
        fees: &Fees,
    ) -> (r: Option<u64>)
        ensures
            opt_u64(r) == self.mint_amount_of(
                deposit_amount_a as int,
                deposit_amount_b as int,
                swap_amount_a as int,
                swap_amount_b as int,
                pool_token_supply as int,
                *fees,
            ),
    {
        // Initial invariant
        let d_0 = self.compute_d(swap_amount_a, swap_amount_b)?;
        let new_amount_a = swap_amount_a.checked_add(deposit_amount_a)?;
        let new_amount_b = swap_amount_b.checked_add(deposit_amount_b)?;
        // Invariant after change
        let d_1 = self.compute_d(new_amount_a, new_amount_b)?;
        if d_1.le(d_0) {
            return None;
        }
        // Recalculate the invariant accounting for fees
        let adjusted_a = adjust_for_imbalance(fees, d_0, d_1, swap_amount_a, new_amount_a)?;
        let adjusted_b = adjust_for_imbalance(fees, d_0, d_1, swap_amount_b, new_amount_b)?;
        let d_2 = self.compute_d(adjusted_a, adjusted_b)?;
        U192::from_u64(pool_token_supply).checked_mul(d_2.checked_sub(d_0)?)?.checked_div(
            d_0,
        )?.to_u64()
    }

    /// Quotes a withdrawal of `pool_token_amount` shares in the base asset
    /// alone: the amount before the withdraw fee, and its trade fee part.
    pub fn compute_withdraw_one(
        &self,
        pool_token_amount: u64,
        pool_token_supply: u64,
        swap_base_amount: u64,
        swap_quote_amount: u64,
        fees: &Fees,
    ) -> (r: Option<(u64, u64)>)
        ensures
            opt_pair(r) == self.withdraw_one_of(
                pool_token_amount as int,
                pool_token_supply as int,
                swap_base_amount as int,
                swap_quote_amount as int,
                *fees,
            ),
            r matches Some((dy, _)) ==> dy < swap_base_amount,
    {
        let d_0 = self.compute_d(swap_base_amount, swap_quote_amount)?;
        let d_1 = d_0.checked_sub(
            U192::from_u64(pool_token_amount).checked_mul(d_0)?.checked_div(
                U192::from_u64(pool_token_supply),
            )?,
        )?;
        let new_y = match self.compute_y(swap_quote_amount, d_1) {
            Some(0) => None,
            solved => solved,
        };
        // expected_base_amount = swap_base_amount * d_1 / d_0 - new_y
        let expected_base_amount = U192::from_u64(swap_base_amount).checked_mul(d_1)?.checked_div(
            d_0,
        )?.to_u64()?.checked_sub(new_y?)?;
        // expected_quote_amount = swap_quote_amount - swap_quote_amount * d_1 / d_0
        let expected_quote_amount = swap_quote_amount.checked_sub(
            U192::from_u64(swap_quote_amount).checked_mul(d_1)?.checked_div(d_0)?.to_u64()?,
        )?;
        let new_base_amount = swap_base_amount.checked_sub(
            fees.normalized_trade_fee(N_COINS, expected_base_amount)?,
        )?;
        let new_quote_amount = swap_quote_amount.checked_sub(
            fees.normalized_trade_fee(N_COINS, expected_quote_amount)?,
        )?;
        let dy = new_base_amount.checked_sub(self.compute_y(new_quote_amount, d_1)?)?;
        let dy_0 = swap_base_amount.checked_sub(new_y?)?;
        Some((dy, dy_0.checked_sub(dy)?))
    }
}

/// A deposited balance less the normalized trade fee on its distance from
/// its ideal share of the grown invariant.
fn adjust_for_imbalance(
    fees: &Fees,
    d_0: U192,
    d_1: U192,
    old_balance: u64,
    new_balance: u64,
) -> (r: Option<u64>)
    ensures
        opt_u64(r) == adjusted_balance(
            *fees,
            d_0@ as int,
            d_1@ as int,
            old_balance as int,
            new_balance as int,
        ),
{
    let ideal_balance = d_1.checked_mul(U192::from_u64(old_balance))?.checked_div(d_0)?.to_u64()?;
    let difference = if ideal_balance > new_balance {
        ideal_balance - new_balance
    } else {
        new_balance - ideal_balance
    };
    let fee = fees.normalized_trade_fee(N_COINS, difference)?;
    new_balance.checked_sub(fee)
}

} // verus!

verus! {

/// Outside its window the ramp has no effect: at or after its end, before
/// its start, and when start and end coincide, the coefficient is the target.
pub proof fn lemma_ramp_settled(s: StableSwap)
    requires
        s.current_ts >= s.stop_ramp_ts || s.current_ts < s.start_ramp_ts || s.start_ramp_ts
            == s.stop_ramp_ts,
    ensures
        s.amp_factor() == s.target_amp_factor,
{
}

/// The coefficient never leaves the range spanned by the initial and target
/// coefficients, so it stays within any bounds that both respect.
pub proof fn lemma_ramp_between(s: StableSwap)
    ensures
        s.initial_amp_factor <= s.target_amp_factor ==> s.initial_amp_factor <= s.amp_factor()
            <= s.target_amp_factor,
        s.target_amp_factor < s.initial_amp_factor ==> s.target_amp_factor <= s.amp_factor()
            <= s.initial_amp_factor,
{
    if s.start_ramp_ts <= s.current_ts < s.stop_ramp_ts {
        let elapsed = s.current_ts - s.start_ramp_ts;
        let duration = s.stop_ramp_ts - s.start_ramp_ts;
        if s.target_amp_factor >= s.initial_amp_factor {
            lemma_scaled_delta(s.target_amp_factor - s.initial_amp_factor, elapsed, duration);
        } else {
            lemma_scaled_delta(s.initial_amp_factor - s.target_amp_factor, elapsed, duration);
        }
    }
}

proof fn lemma_half_of_scaled(range: int, half: int)
    requires
        range >= 0,
        half >= 1,
    ensures
        range * half / (2 * half) == range / 2,
{
    let q = range / 2;
    let m = range % 2;
    assert(range * half == q * (2 * half) + m * half && 0 <= m * half < 2 * half)
        by (nonlinear_arith)
        requires
            range == 2 * q + m,
            0 <= m < 2,
            half >= 1,
    ;
    vstd::arithmetic::div_mod::lemma_fundamental_div_mod_converse(
        range * half,
        2 * half,
        q,
        m * half,
    );
}

/// A ramp whose end coefficients lie within the policy bounds and whose end
/// is not before its start.
pub open spec fn well_formed(s: StableSwap) -> bool {
    &&& MIN_AMP <= s.initial_amp_factor <= MAX_AMP
    &&& MIN_AMP <= s.target_amp_factor <= MAX_AMP
    &&& s.start_ramp_ts <= s.stop_ramp_ts
}

/// The effective coefficient of a well-formed ramp stays within the policy
/// bounds at every instant.
pub proof fn lemma_amp_factor_in_bounds(s: StableSwap)
    requires
        well_formed(s),
    ensures
        MIN_AMP <= s.amp_factor() <= MAX_AMP,
{
    lemma_ramp_between(s);
}

/// Halfway through a ramp the coefficient is the average of the initial and
/// target coefficients, up to the rounding of one integer division: twice
/// the coefficient differs from their sum by at most one.
pub proof fn lemma_ramp_midpoint(s: StableSwap)
    requires
        s.start_ramp_ts < s.stop_ramp_ts,
        (s.stop_ramp_ts - s.start_ramp_ts) % 2 == 0,
        s.current_ts == s.start_ramp_ts + (s.stop_ramp_ts - s.start_ramp_ts) / 2,
    ensures
        -1 <= 2 * s.amp_factor() - (s.initial_amp_factor + s.target_amp_factor) <= 1,
{
    let half = (s.stop_ramp_ts - s.start_ramp_ts) / 2;
    assert(s.stop_ramp_ts - s.start_ramp_ts == 2 * half);
    if s.target_amp_factor >= s.initial_amp_factor {
        lemma_half_of_scaled(s.target_amp_factor - s.initial_amp_factor, half);
    } else {
        lemma_half_of_scaled(s.initial_amp_factor - s.target_amp_factor, half);
    }
}

/// The stable-swap equation for two assets, `A n^n S + D = A D n^n +
/// D^(n+1) / (n^n P)` with `n = 2`, multiplied through by `n^n P`.
pub open spec fn solves_invariant_equation(amp: int, a: int, b: int, d: int) -> bool {
    4 * a * b * (4 * amp * (a + b) + d) == 4 * a * b * 4 * amp * d + d * d * d
}

/// For equal reserves `x`, `2 * x` solves the stable-swap equation exactly,
/// and the solver returns exactly that value.
pub proof fn lemma_invariant_of_balanced_reserves(amp: int, x: int)
    requires
        MIN_AMP <= amp <= MAX_AMP,
        1 <= x <= u64::MAX,
    ensures
        solves_invariant_equation(amp, x, x, 2 * x),
        invariant_of(amp, x, x) == Some(2 * x),
{
    let d = 2 * x;
    let ann = amp * 2;
    assert(solves_invariant_equation(amp, x, x, d)) by (nonlinear_arith)
        requires
            d == 2 * x,
    ;
    assert(d * d == 4 * x * x && 4 * x * x < 0x1_0000_0000_0000_0000_0000_0000_0000_0000_0int)
        by (nonlinear_arith)
        requires
            d == 2 * x,
            1 <= x <= u64::MAX,
    ;
    assert(4 * x * x / (x * 2) == d) by (nonlinear_arith)
        requires
            d == 2 * x,
            x >= 1,
    ;
    assert(d * d / (x * 2) * d == 4 * x * x);
    let sum = d * 2 + (x + x) * ann;
    assert(sum == 4 * x * (1 + amp) && sum < 0x1_0000_0000_0000_0000_0000_0000_0000_0000_0000_0000_0000_0000int
        && d * sum == 8 * x * x * (1 + amp) && 8 * x * x * (1 + amp)
        < 0x1_0000_0000_0000_0000_0000_0000_0000_0000_0000_0000_0000_0000int) by (nonlinear_arith)
        requires
            d == 2 * x,
            ann == amp * 2,
            sum == d * 2 + (x + x) * ann,
            1 <= amp <= 1_000_000,
            1 <= x <= u64::MAX,
    ;
    let den = d * (ann - 1) + d * 3;
    assert(den == 4 * x * (1 + amp) && d * (ann - 1) < 0x1_0000_0000_0000_0000_0000_0000_0000_0000_0000_0000_0000_0000int
        && d * 3 < 0x1_0000_0000_0000_0000_0000_0000_0000_0000_0000_0000_0000_0000int
        && den > 0) by (nonlinear_arith)
        requires
            d == 2 * x,
            ann == amp * 2,
            den == d * (ann - 1) + d * 3,
            1 <= amp <= 1_000_000,
            1 <= x <= u64::MAX,
    ;
    assert(8 * x * x * (1 + amp) / (4 * x * (1 + amp)) == d) by (nonlinear_arith)
        requires
            d == 2 * x,
            1 <= amp,
            1 <= x,
    ;
    let sq = wide_mul(Some(d), Some(d));
    assert(sq == Some(4 * x * x));
    let first = wide_div(sq, Some(x * 2));
    assert(first == Some(d));
    assert(wide_mul(first, Some(d)) == Some(4 * x * x));
    let d_prod = wide_div(wide_mul(first, Some(d)), Some(x * 2));
    assert(d_prod == Some(d));
    assert(wide_mul(d_prod, Some(2)) == Some(d * 2));
    assert(wide_add(wide_mul(d_prod, Some(2)), Some((x + x) * ann)) == Some(sum));
    let numerator = wide_mul(Some(d), wide_add(wide_mul(d_prod, Some(2)), Some((x + x) * ann)));
    assert(numerator == Some(8 * x * x * (1 + amp)));
    let denominator = wide_add(wide_mul(Some(d), Some(ann - 1)), wide_mul(d_prod, Some(3)));
    assert(denominator == Some(den));
    assert(d_next(ann, x, x, d) == wide_div(numerator, denominator));
    assert(d_next(ann, x, x, d) == Some(d));
}

/// With a zero invariant the solved balance is zero, whenever the solver's
/// divisors are nonzero.
proof fn lemma_balance_for_zero_invariant(amp: int, x: int)
    requires
        0 <= amp <= u64::MAX,
        0 <= x <= u64::MAX,
    ensures
        balance_for(amp, x, 0) == if amp >= 1 && x >= 1 {
            Some(0int)
        } else {
            None
        },
{
    if amp >= 1 && x >= 1 {
        assert(wide_div(Some(0), Some(amp * 2)) == Some(0int));
        assert(y_next(x, 0, 0, 0) == Some(0int));
    }
}

/// Burning every share into the base asset is refused: the reduced invariant
/// is zero, which solves the base balance to zero, and a withdrawal that
/// would empty the base reserve has no quote.
pub proof fn lemma_withdraw_one_of_whole_supply_is_refused(
    s: StableSwap,
    supply: u64,
    base: u64,
    quote: u64,
    fees: Fees,
)
    ensures
        s.withdraw_one_of(supply as int, supply as int, base as int, quote as int, fees) is None,
{
    let amp = s.amp_factor();
    lemma_ramp_between(s);
    if let Some(d0) = invariant_of(amp, base as int, quote as int) {
        if supply > 0 && (supply as int) * d0 < crate::bn::wide_limit() {
            assert((supply as int) * d0 / (supply as int) == d0) by (nonlinear_arith)
                requires
                    supply > 0,
            ;
            assert(wide_sub(
                Some(d0),
                wide_div(wide_mul(Some(supply as int), Some(d0)), Some(supply as int)),
            ) == Some(0int));
            lemma_balance_for_zero_invariant(amp, quote as int);
            assert(positive(balance_for(amp, quote as int, 0)) is None);
        }
    }
}

proof fn lemma_double_ratio(n: int, y: int, x: int)
    requires
        n >= 0,
        y >= 0,
        x >= 1,
    ensures
        n * (2 * y) / (2 * x) == n * y / x,
{
    let q = n * y / x;
    let m = n * y % x;
    vstd::arithmetic::div_mod::lemma_fundamental_div_mod(n * y, x);
    assert(n * (2 * y) == q * (2 * x) + 2 * m) by (nonlinear_arith)
        requires
            n * y == x * q + m,
    ;
    vstd::arithmetic::div_mod::lemma_fundamental_div_mod_converse(n * (2 * y), 2 * x, q, 2 * m);
}

/// Depositing the same amount `y` of each asset into a pool whose reserves
/// are both `x` charges no imbalance fee on either asset and mints exactly
/// `supply * y / x` shares, when that fits in 64 bits.
pub proof fn lemma_balanced_deposit_mints_pro_rata(
    s: StableSwap,
    x: u64,
    y: u64,
    supply: u64,
    fees: Fees,
)
    requires
        MIN_AMP <= s.amp_factor() <= MAX_AMP,
        1 <= x,
        1 <= y,
        x + y <= u64::MAX,
        fees.trade_fee_denominator > 0,
    ensures
        adjusted_balance(fees, 2 * x, 2 * (x + y), x as int, x + y) == Some(x + y),
        s.mint_amount_of(y as int, y as int, x as int, x as int, supply as int, fees) == narrow(
            Some(supply * y / (x as int)),
        ),
{
    let amp = s.amp_factor();
    let d0 = 2 * x;
    let d1 = 2 * (x + y);
    lemma_invariant_of_balanced_reserves(amp, x as int);
    lemma_invariant_of_balanced_reserves(amp, x + y);
    assert(d1 * x == (x + y) * d0 && d1 * x < crate::bn::wide_limit()) by (nonlinear_arith)
        requires
            d0 == 2 * x,
            d1 == 2 * (x + y),
            1 <= x <= u64::MAX,
            x + y <= u64::MAX,
    ;
    vstd::arithmetic::div_mod::lemma_div_multiples_vanish((x + y) as int, d0);
    assert((x + y) * d0 / d0 == x + y) by (nonlinear_arith)
        requires
            d0 >= 1,
            (d0 * (x + y)) / d0 == x + y,
    ;
    let adjusted = fees.trade_fee_numerator * 2 / 4;
    assert(adjusted <= u64::MAX);
    assert(0 * adjusted == 0 && 0int / (fees.trade_fee_denominator as int) == 0);
    assert(fees.normalized_trade_fee_of(N_COINS as int, 0) == Some(0int));
    assert(adjusted_balance(fees, d0, d1, x as int, x + y) == Some(x + y));
    assert((supply as int) * (2 * y) < crate::bn::wide_limit()) by (nonlinear_arith)
        requires
            0 <= supply <= u64::MAX,
            1 <= y <= u64::MAX,
    ;
    lemma_double_ratio(supply as int, y as int, x as int);
    assert(d1 - d0 == 2 * y);
}

} // verus!
