//! Unsigned 192-bit integers with checked arithmetic, wide enough for every
//! intermediate product of the invariant solver.

use vstd::prelude::*;
use vstd::arithmetic::power2::{pow2, lemma_pow2_unfold, lemma2_to64};
use vstd::arithmetic::div_mod::{lemma_fundamental_div_mod_converse};

verus! {

/// 2^64, the base of one machine word.
#[verifier::inline]
pub open spec fn word() -> int {
    0x1_0000_0000_0000_0000int
}

/// 2^128, the weight of the high word of a `U192`.
#[verifier::inline]
pub open spec fn high_weight() -> int {
    0x1_0000_0000_0000_0000_0000_0000_0000_0000int
}

/// 2^192: every `U192` lies below it.
#[verifier::inline]
pub open spec fn wide_limit() -> int {
    0x1_0000_0000_0000_0000_0000_0000_0000_0000_0000_0000_0000_0000int
}

/// Checked 192-bit product of two optional operands.
pub open spec fn wide_mul(x: Option<int>, y: Option<int>) -> Option<int> {
    match (x, y) {
        (Some(a), Some(b)) => if a * b < wide_limit() {
            Some(a * b)
        } else {
            None
        },
        _ => None,
    }
}

/// Checked 192-bit sum of two optional operands.
pub open spec fn wide_add(x: Option<int>, y: Option<int>) -> Option<int> {
    match (x, y) {
        (Some(a), Some(b)) => if a + b < wide_limit() {
            Some(a + b)
        } else {
            None
        },
        _ => None,
    }
}

/// Checked difference of two optional operands: no result below zero.
pub open spec fn wide_sub(x: Option<int>, y: Option<int>) -> Option<int> {
    match (x, y) {
        (Some(a), Some(b)) => if a >= b {
            Some(a - b)
        } else {
            None
        },
        _ => None,
    }
}

/// Floor division of two optional operands: no result for a zero divisor.
pub open spec fn wide_div(x: Option<int>, y: Option<int>) -> Option<int> {
    match (x, y) {
        (Some(a), Some(b)) => if b == 0 {
            None
        } else {
            Some(a / b)
        },
        _ => None,
    }
}

/// Narrowing to 64 bits: no result for a value above `u64::MAX`.
pub open spec fn narrow(x: Option<int>) -> Option<int> {
    match x {
        Some(a) => if a <= u64::MAX {
            Some(a)
        } else {
            None
        },
        None => None,
    }
}

const WORD: u128 = 0x1_0000_0000_0000_0000;

const HALF_HIGH: u128 = 0x8000_0000_0000_0000_0000_0000_0000_0000;

/// An unsigned integer below 2^192, held as a 64-bit high word and a 128-bit
/// low word.
#[derive(Clone, Copy, Debug)]
pub struct U192 {
    hi: u64,
    lo: u128,
}

impl View for U192 {
    type V = nat;

    closed spec fn view(&self) -> nat {
        (self.hi as nat) * 0x1_0000_0000_0000_0000_0000_0000_0000_0000nat + self.lo as nat
    }
}

/// The integer held by an optional `U192`.
pub open spec fn opt_view(r: Option<U192>) -> Option<int> {
    match r {
        Some(v) => Some(v@ as int),
        None => None,
    }
}

proof fn lemma_product_limbs(a0: int, a1: int, a2: int, b0: int, b1: int, b2: int, w: int, h: int)
    requires
        h == w * w,
        a1 * b2 == 0,
        a2 * b1 == 0,
        a2 * b2 == 0,
    ensures
        (a2 * h + a1 * w + a0) * (b2 * h + b1 * w + b0) == a0 * b0 + (a0 * b1 + a1 * b0) * w + (
        a0 * b2 + a1 * b1 + a2 * b0) * h,
{
    let y = b2 * h + b1 * w + b0;
    assert((a2 * h + a1 * w + a0) * y == a2 * h * y + a1 * w * y + a0 * y) by (nonlinear_arith);
    assert(a2 * h * y == a2 * b0 * h) by (nonlinear_arith)
        requires
            y == b2 * h + b1 * w + b0,
            a2 * b1 == 0,
            a2 * b2 == 0,
    ;
    assert(a1 * w * y == a1 * b1 * h + a1 * b0 * w) by (nonlinear_arith)
        requires
            y == b2 * h + b1 * w + b0,
            h == w * w,
            a1 * b2 == 0,
    ;
    assert(a0 * y == a0 * b2 * h + a0 * b1 * w + a0 * b0) by (nonlinear_arith)
        requires
            y == b2 * h + b1 * w + b0,
    ;
    assert(a0 * b0 + (a0 * b1 + a1 * b0) * w + (a0 * b2 + a1 * b1 + a2 * b0) * h == a0 * b0 + a0
        * b1 * w + a1 * b0 * w + a0 * b2 * h + a1 * b1 * h + a2 * b0 * h) by (nonlinear_arith);
}

proof fn lemma_product_at_least(x: int, y: int, w: int, h: int)
    by (nonlinear_arith)
    requires
        0 < w,
        0 < h,
        (x >= h && y >= w) || (x >= w && y >= h),
    ensures
        x * y >= h * w,
{
}

proof fn lemma_word_product(x: int, y: int)
    by (nonlinear_arith)
    requires
        0 <= x < 0x1_0000_0000_0000_0000int,
        0 <= y < 0x1_0000_0000_0000_0000int,
    ensures
        0 <= x * y < 0x1_0000_0000_0000_0000_0000_0000_0000_0000int,
{
}

impl U192 {
    /// Every value lies below 2^192.
    pub proof fn lemma_bound(self)
        ensures
            self@ < wide_limit(),
    {
    }

    pub fn zero() -> (r: U192)
        ensures
            r@ == 0,
    {
        U192 { hi: 0, lo: 0 }
    }

    pub fn from_u64(x: u64) -> (r: U192)
        ensures
            r@ == x,
    {
        U192 { hi: 0, lo: x as u128 }
    }

    /// Narrows to 64 bits, with no result when the value does not fit.
    pub fn to_u64(self) -> (r: Option<u64>)
        ensures
            r matches Some(v) ==> v == self@,
            r is None <==> self@ > u64::MAX,
    {
        if self.hi == 0 && self.lo <= u64::MAX as u128 {
            Some(self.lo as u64)
        } else {
            None
        }
    }

    pub fn is_zero(self) -> (r: bool)
        ensures
            r == (self@ == 0),
    {
        self.hi == 0 && self.lo == 0
    }

    pub fn lt(self, rhs: U192) -> (r: bool)
        ensures
            r == (self@ < rhs@),
    {
        self.hi < rhs.hi || (self.hi == rhs.hi && self.lo < rhs.lo)
    }

    pub fn le(self, rhs: U192) -> (r: bool)
        ensures
            r == (self@ <= rhs@),
    {
        !rhs.lt(self)
    }

    /// Whether the two values differ by at most one.
    pub fn within_one(self, other: U192) -> (r: bool)
        ensures
            r == (-1 <= self@ - other@ <= 1),
    {
        let one = U192::from_u64(1);
        if other.lt(self) {
            self.sub_le(other).le(one)
        } else {
            other.sub_le(self).le(one)
        }
    }

    pub fn checked_add(self, rhs: U192) -> (r: Option<U192>)
        ensures
            opt_view(r) == wide_add(Some(self@ as int), Some(rhs@ as int)),
    {
        if self.lo <= u128::MAX - rhs.lo {
            if self.hi <= u64::MAX - rhs.hi {
                Some(U192 { hi: self.hi + rhs.hi, lo: self.lo + rhs.lo })
            } else {
                None
            }
        } else {
            let lo = self.lo - (u128::MAX - rhs.lo) - 1;
            if self.hi < u64::MAX - rhs.hi {
                Some(U192 { hi: self.hi + rhs.hi + 1, lo })
            } else {
                None
            }
        }
    }

    pub fn checked_sub(self, rhs: U192) -> (r: Option<U192>)
        ensures
            opt_view(r) == wide_sub(Some(self@ as int), Some(rhs@ as int)),
    {
        if self.lt(rhs) {
            None
        } else {
            Some(self.sub_le(rhs))
        }
    }

    fn sub_le(self, rhs: U192) -> (r: U192)
        requires
            rhs@ <= self@,
        ensures
            r@ == self@ - rhs@,
    {
        if self.lo >= rhs.lo {
            U192 { hi: self.hi - rhs.hi, lo: self.lo - rhs.lo }
        } else {
            U192 { hi: self.hi - rhs.hi - 1, lo: (u128::MAX - rhs.lo) + self.lo + 1 }
        }
    }

    pub fn checked_mul(self, rhs: U192) -> (r: Option<U192>)
        ensures
            opt_view(r) == wide_mul(Some(self@ as int), Some(rhs@ as int)),
    {
        let a0: u128 = self.lo % WORD;
        let a1: u128 = self.lo / WORD;
        let a2: u128 = self.hi as u128;
        let b0: u128 = rhs.lo % WORD;
        let b1: u128 = rhs.lo / WORD;
        let b2: u128 = rhs.hi as u128;
        let ghost x = self@ as int;
        let ghost y = rhs@ as int;
        assert(x == a2 * high_weight() + a1 * word() + a0);
        assert(y == b2 * high_weight() + b1 * word() + b0);
        if (a2 != 0 && (b1 != 0 || b2 != 0)) || (a1 != 0 && b2 != 0) {
            proof {
                lemma_product_at_least(x, y, word(), high_weight());
            }
            return None;
        }
        proof {
            lemma_product_limbs(
                a0 as int,
                a1 as int,
                a2 as int,
                b0 as int,
                b1 as int,
                b2 as int,
                word(),
                high_weight(),
            );
            lemma_word_product(a0 as int, b0 as int);
            lemma_word_product(a0 as int, b1 as int);
            lemma_word_product(a1 as int, b0 as int);
            lemma_word_product(a0 as int, b2 as int);
            lemma_word_product(a1 as int, b1 as int);
            lemma_word_product(a2 as int, b0 as int);
        }
        let p00 = a0 * b0;
        let p01 = a0 * b1;
        let p10 = a1 * b0;
        let p02 = a0 * b2;
        let p11 = a1 * b1;
        let p20 = a2 * b0;
        if p02 >= WORD || p11 >= WORD || p20 >= WORD {
            return None;
        }
        let r0 = p00 % WORD;
        let col1 = p00 / WORD + p01 % WORD + p10 % WORD;
        let r1 = col1 % WORD;
        let col2 = col1 / WORD + p01 / WORD + p10 / WORD + p02 + p11 + p20;
        if col2 >= WORD {
            return None;
        }
        Some(U192 { hi: col2 as u64, lo: r1 * WORD + r0 })
    }

    /// `2 * self + bit`, the quotient step of long division.
    fn shl1_with(self, bit: bool) -> (r: U192)
        requires
            2 * self@ + 1 < wide_limit(),
        ensures
            r@ == 2 * self@ + if bit {
                1int
            } else {
                0int
            },
    {
        let carry: u64 = (self.lo / HALF_HIGH) as u64;
        let low: u128 = (self.lo % HALF_HIGH) * 2 + if bit {
            1u128
        } else {
            0u128
        };
        U192 { hi: self.hi * 2 + carry, lo: low }
    }

    fn half(self) -> (r: U192)
        ensures
            r@ == self@ / 2,
    {
        let top: u128 = if self.hi % 2 == 1 {
            HALF_HIGH
        } else {
            0u128
        };
        U192 { hi: self.hi / 2, lo: top + self.lo / 2 }
    }

    /// Floor division, with no result for a zero divisor.
    pub fn checked_div(self, rhs: U192) -> (r: Option<U192>)
        ensures
            opt_view(r) == wide_div(Some(self@ as int), Some(rhs@ as int)),
    {
        if rhs.is_zero() {
            return None;
        }
        if self.lt(rhs) {
            proof {
                lemma_fundamental_div_mod_converse(self@ as int, rhs@ as int, 0, self@ as int);
            }
            return Some(U192::zero());
        }
        // Double the divisor while it still fits twice into the dividend.
        let mut d = rhs;
        let ghost mut t: nat = 0;
        proof {
            lemma2_to64();
        }
        while d.le(self.sub_le(d))
            invariant
                0 < rhs@,
                rhs@ <= d@ <= self@,
                d@ == rhs@ * pow2(t),
            decreases self@ - d@,
        {
            proof {
                self.lemma_bound();
                lemma_pow2_unfold(t + 1);
                assert(rhs@ * pow2(t + 1) == 2 * (rhs@ * pow2(t))) by (nonlinear_arith)
                    requires
                        pow2(t + 1) == 2 * pow2(t),
                ;
            }
            d = d.shl1_with(false);
            proof {
                t = t + 1;
            }
        }
        // Subtract the shifted divisor back out, one bit of quotient at a time.
        let mut rem = self;
        let mut q = U192::zero();
        loop
            invariant
                0 < rhs@ <= d@,
                d@ == rhs@ * pow2(t),
                q@ * (2 * d@) + rem@ == self@,
                rem@ < 2 * d@,
            decreases t,
        {
            proof {
                self.lemma_bound();
                assert(2 * q@ + 1 < wide_limit()) by (nonlinear_arith)
                    requires
                        q@ * (2 * d@) + rem@ == self@,
                        self@ < wide_limit(),
                        d@ >= 1,
                        rem@ < 2 * d@,
                ;
            }
            let ghost q0 = q@ as int;
            let ghost r0 = rem@ as int;
            let take = d.le(rem);
            if take {
                rem = rem.sub_le(d);
            }
            q = q.shl1_with(take);
            let ghost bit: int = if take {
                1
            } else {
                0
            };
            assert(q@ * d@ + rem@ == self@) by (nonlinear_arith)
                requires
                    q@ == 2 * q0 + bit,
                    rem@ == r0 - bit * d@,
                    q0 * (2 * d@) + r0 == self@,
            ;
            assert(rem@ < d@);
            if d.le(rhs) {
                proof {
                    assert(d@ == rhs@);
                    lemma_fundamental_div_mod_converse(self@ as int, rhs@ as int, q@ as int, rem@ as int);
                }
                return Some(q);
            }
            proof {
                if t == 0 {
                    lemma2_to64();
                }
                lemma_pow2_unfold(t);
                let k = pow2((t - 1) as nat);
                assert(rhs@ * (2 * k) / 2 == rhs@ * k && 2 * (rhs@ * k) == rhs@ * (2 * k)
                    && rhs@ * k >= rhs@) by (nonlinear_arith)
                    requires
                        k >= 1,
                        rhs@ > 0,
                ;
            }
            d = d.half();
            proof {
                t = (t - 1) as nat;
            }
        }
    }
}

} // verus!
