//! Token amounts as they cross the syscall boundary.

use vstd::prelude::*;
use vstd::std_specs::convert::{FromSpecImpl, TryFromSpecImpl};

verus! {

/// 2^64
pub open spec fn limb() -> nat {
    0x1_0000_0000_0000_0000
}

/// A 128-bit token amount split in two 64-bit halves, the layout in which
/// amounts are exchanged with sandboxed code.
#[derive(Debug, Copy, Clone, PartialEq, Eq, Structural)]
pub struct TokenAmount {
    pub lo: u64,
    pub hi: u64,
}

impl TokenAmount {
    /// The amount that the two halves stand for.
    pub open spec fn value(&self) -> nat {
        self.hi as nat * limb() + self.lo as nat
    }

    /// The halves of an amount.
    pub open spec fn split(v: u128) -> TokenAmount {
        TokenAmount { lo: (v as nat % limb()) as u64, hi: (v as nat / limb()) as u64 }
    }

    /// Splitting an amount and joining the halves gives the amount back, and
    /// the other way round.
    pub proof fn lemma_round_trip(v: u128, t: TokenAmount)
        ensures
            Self::split(v).value() == v,
            t.value() <= u128::MAX,
            Self::split(t.value() as u128) == t,
    {
        let l = limb() as int;
        assert(v as int == l * (v as int / l) + (v as int % l)) by (nonlinear_arith)
            requires
                l > 0,
        ;
        assert(0 <= v as int / l < l) by (nonlinear_arith)
            requires
                l == 0x1_0000_0000_0000_0000,
                0 <= v as int,
                (v as int) < 0x1_0000_0000_0000_0000_0000_0000_0000_0000,
        ;
        assert(0 <= v as int % l < l) by (nonlinear_arith)
            requires
                l > 0,
        ;
        let hi = t.hi as int;
        let lo = t.lo as int;
        assert(hi * l + lo <= u128::MAX) by (nonlinear_arith)
            requires
                0 <= hi < l,
                0 <= lo < l,
                l == 0x1_0000_0000_0000_0000,
        ;
        assert((hi * l + lo) / l == hi && (hi * l + lo) % l == lo) by (nonlinear_arith)
            requires
                0 <= hi,
                0 <= lo < l,
                l > 0,
        ;
    }
}

impl From<TokenAmount> for u128 {
    fn from(v: TokenAmount) -> (r: u128) {
        let hi: u128 = v.hi as u128;
        let lo: u128 = v.lo as u128;
        assert(hi * 0x1_0000_0000_0000_0000 + lo <= u128::MAX) by (nonlinear_arith)
            requires
                0 <= hi < 0x1_0000_0000_0000_0000,
                0 <= lo < 0x1_0000_0000_0000_0000,
        ;
        hi * 0x1_0000_0000_0000_0000 + lo
    }
}

impl FromSpecImpl<TokenAmount> for u128 {
    open spec fn obeys_from_spec() -> bool {
        true
    }

    open spec fn from_spec(v: TokenAmount) -> u128 {
        v.value() as u128
    }
}

impl From<u128> for TokenAmount {
    fn from(v: u128) -> (r: TokenAmount) {
        let hi: u128 = v / 0x1_0000_0000_0000_0000;
        let lo: u128 = v % 0x1_0000_0000_0000_0000;
        assert(hi < 0x1_0000_0000_0000_0000) by (nonlinear_arith)
            requires
                hi == v / 0x1_0000_0000_0000_0000,
                v <= u128::MAX,
        ;
        TokenAmount { lo: lo as u64, hi: hi as u64 }
    }
}

impl FromSpecImpl<u128> for TokenAmount {
    open spec fn obeys_from_spec() -> bool {
        true
    }

    open spec fn from_spec(v: u128) -> TokenAmount {
        TokenAmount::split(v)
    }
}

/// An integer of any size: its sign and its digits in base 2^64, the least
/// significant first.
#[derive(Clone, Copy, Debug)]
pub struct BigAmount<'a> {
    pub negative: bool,
    pub digits: &'a [u64],
}

/// The number that digits in base 2^64 stand for.
pub open spec fn digits_value(digits: Seq<u64>) -> nat
    decreases digits.len(),
{
    if digits.len() == 0 {
        0
    } else {
        digits[0] as nat + limb() * digits_value(digits.drop_first())
    }
}

/// The amount is negative or does not fit in 128 bits.
#[derive(Clone, Copy, Debug, PartialEq, Eq, Structural)]
pub struct AmountOutOfRange;

/// Digits stand for zero exactly when all of them are zero.
pub proof fn lemma_digits_zero(digits: Seq<u64>)
    ensures
        digits_value(digits) == 0 <==> forall|i: int| 0 <= i < digits.len() ==> digits[i] == 0,
    decreases digits.len(),
{
    if digits.len() > 0 {
        let rest = digits.drop_first();
        lemma_digits_zero(rest);
        let v = digits_value(rest);
        assert(limb() * v == 0 <==> v == 0) by (nonlinear_arith)
            requires
                limb() == 0x1_0000_0000_0000_0000,
        ;
        if digits_value(digits) == 0 {
            assert forall|i: int| 0 <= i < digits.len() implies digits[i] == 0 by {
                if i > 0 {
                    assert(rest[i - 1] == digits[i]);
                }
            }
        } else {
            if forall|i: int| 0 <= i < digits.len() ==> digits[i] == 0 {
                assert forall|i: int| 0 <= i < rest.len() implies rest[i] == 0 by {
                    assert(rest[i] == digits[i + 1]);
                }
            }
        }
    }
}

/// The first two digits and what the other digits stand for make up the
/// number.
pub proof fn lemma_digits_split(digits: Seq<u64>)
    requires
        digits.len() >= 2,
    ensures
        digits_value(digits) == digits[0] + limb() * digits[1] + limb() * limb() * digits_value(
            digits.skip(2),
        ),
{
    let rest = digits.drop_first();
    assert(rest.drop_first() =~= digits.skip(2));
    assert(rest[0] == digits[1]);
    let v = digits_value(digits.skip(2)) as int;
    let l = limb() as int;
    let d1 = digits[1] as int;
    assert(digits_value(rest) == d1 + l * v);
    assert(digits_value(digits) == digits[0] + l * digits_value(rest));
    assert(l * (d1 + l * v) == l * d1 + l * l * v) by (nonlinear_arith);
}

impl<'a> TryFrom<BigAmount<'a>> for TokenAmount {
    type Error = AmountOutOfRange;

    fn try_from(v: BigAmount<'a>) -> (r: Result<TokenAmount, AmountOutOfRange>) {
        let n = v.digits.len();
        let lo: u64 = if n > 0 {
            v.digits[0]
        } else {
            0
        };
        let hi: u64 = if n > 1 {
            v.digits[1]
        } else {
            0
        };
        let ghost value = digits_value(v.digits@);
        let ghost l = limb() as int;
        let ghost high = if n >= 2 {
            digits_value(v.digits@.skip(2))
        } else {
            0
        };
        proof {
            if n >= 2 {
                lemma_digits_split(v.digits@);
            } else if n == 1 {
                assert(v.digits@.drop_first().len() == 0);
                assert(digits_value(v.digits@.drop_first()) == 0);
            }
            assert(value == lo + l * hi + l * l * high);
            assert(lo + l * hi <= u128::MAX && (high > 0 ==> l * l * high > u128::MAX)) by (
            nonlinear_arith)
                requires
                    l == 0x1_0000_0000_0000_0000,
                    0 <= lo < l,
                    0 <= hi < l,
                    0 <= high,
            ;
            assert((lo + l * hi) / l == hi && (lo + l * hi) % l == lo) by (nonlinear_arith)
                requires
                    l == 0x1_0000_0000_0000_0000,
                    0 <= lo < l,
                    0 <= hi,
            ;
        }
        let mut i: usize = 2;
        while i < n
            invariant
                2 <= i,
                i <= n || n < 2,
                n == v.digits@.len(),
                forall|k: int| 2 <= k < i && k < n ==> v.digits@[k] == 0,
                n >= 2 ==> high == digits_value(v.digits@.skip(2)),
                value == lo + l * hi + l * l * high,
                lo + l * hi <= u128::MAX,
                high > 0 ==> value > u128::MAX,
                l == limb(),
                value == digits_value(v.digits@),
            decreases n - i,
        {
            if v.digits[i] != 0 {
                proof {
                    lemma_digits_zero(v.digits@.skip(2));
                    assert(v.digits@.skip(2)[i - 2] == v.digits@[i as int]);
                }
                return Err(AmountOutOfRange);
            }
            i = i + 1;
        }
        proof {
            if n >= 2 {
                lemma_digits_zero(v.digits@.skip(2));
                assert forall|k: int| 0 <= k < v.digits@.skip(2).len() implies v.digits@.skip(
                    2,
                )[k] == 0 by {
                    assert(v.digits@.skip(2)[k] == v.digits@[k + 2]);
                }
            }
            assert(high == 0);
            assert(l * l * high == 0) by (nonlinear_arith)
                requires
                    high == 0,
            ;
        }
        if v.negative && (lo != 0 || hi != 0) {
            assert(value != 0) by (nonlinear_arith)
                requires
                    value == lo + l * hi,
                    lo != 0 || hi != 0,
                    0 <= lo,
                    0 <= hi,
                    l == 0x1_0000_0000_0000_0000,
            ;
            return Err(AmountOutOfRange);
        }
        assert(v.negative ==> value == 0) by (nonlinear_arith)
            requires
                value == lo + l * hi,
                v.negative ==> lo == 0 && hi == 0,
        ;
        Ok(TokenAmount { lo, hi })
    }
}

impl<'a> TryFromSpecImpl<BigAmount<'a>> for TokenAmount {
    open spec fn obeys_try_from_spec() -> bool {
        true
    }

    open spec fn try_from_spec(v: BigAmount<'a>) -> Result<TokenAmount, AmountOutOfRange> {
        let value = digits_value(v.digits@);
        if (v.negative && value != 0) || value > u128::MAX {
            Err(AmountOutOfRange)
        } else {
            Ok(TokenAmount::split(value as u128))
        }
    }
}

} // verus!
