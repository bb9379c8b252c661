//! Balance arithmetic: an unsigned 256-bit integer with explicit
//! overflow and underflow detection. All ledger amounts are values of
//! this type; no operation on it wraps silently.

use vstd::prelude::*;

verus! {

/// The weight of the high limb: 2^128.
pub open spec fn limb_base() -> int {
    0x100000000000000000000000000000000int
}

/// The largest representable amount: 2^256 - 1.
pub open spec fn u256_max() -> int {
    limb_base() * limb_base() - 1
}

/// An unsigned 256-bit amount, split into two 128-bit limbs.
/// The value is `hi * 2^128 + lo`.
#[derive(Clone, Copy, Debug, PartialEq, Eq, Structural)]
pub struct Uint256 {
    pub lo: u128,
    pub hi: u128,
}

/// Every representable amount lies below 2^256.
pub proof fn lemma_as_nat_bound(v: Uint256)
    ensures
        v.as_nat() <= u256_max(),
{
    assert(v.hi * limb_base() <= (limb_base() - 1) * limb_base()) by (nonlinear_arith)
        requires
            0 <= v.hi <= limb_base() - 1,
    ;
}

impl Uint256 {
    /// The mathematical value this amount stands for.
    pub open spec fn as_nat(self) -> nat {
        (self.hi * limb_base() + self.lo) as nat
    }

    pub fn zero() -> (r: Self)
        ensures
            r.as_nat() == 0,
    {
        Uint256 { lo: 0, hi: 0 }
    }

    pub fn from_u128(v: u128) -> (r: Self)
        ensures
            r.as_nat() == v,
    {
        Uint256 { lo: v, hi: 0 }
    }

    /// The sum of two amounts, or `None` if it does not fit in 256 bits.
    pub fn checked_add(self, other: Self) -> (r: Option<Self>)
        ensures
            match r {
                Some(v) => v.as_nat() == self.as_nat() + other.as_nat()
                    && self.as_nat() + other.as_nat() <= u256_max(),
                None => self.as_nat() + other.as_nat() > u256_max(),
            },
    {
        let (lo, carry): (u128, bool) = if self.lo <= u128::MAX - other.lo {
            (self.lo + other.lo, false)
        } else {
            // lo wraps: the true low limb is lo + other.lo - 2^128.
            (self.lo - (u128::MAX - other.lo) - 1, true)
        };
        let hi_sum = match self.hi.checked_add(other.hi) {
            Some(h) => h,
            None => {
                return None;
            },
        };
        let hi = if carry {
            match hi_sum.checked_add(1) {
                Some(h) => h,
                None => {
                    return None;
                },
            }
        } else {
            hi_sum
        };
        Some(Uint256 { lo, hi })
    }

    /// The difference of two amounts, or `None` if it would be negative.
    pub fn checked_sub(self, other: Self) -> (r: Option<Self>)
        ensures
            match r {
                Some(v) => self.as_nat() >= other.as_nat()
                    && v.as_nat() == self.as_nat() - other.as_nat(),
                None => self.as_nat() < other.as_nat(),
            },
    {
        if self.hi > other.hi {
            if self.lo >= other.lo {
                Some(Uint256 { lo: self.lo - other.lo, hi: self.hi - other.hi })
            } else {
                // borrow from the high limb: lo - other.lo + 2^128.
                Some(
                    Uint256 {
                        lo: self.lo + (u128::MAX - other.lo) + 1,
                        hi: self.hi - other.hi - 1,
                    },
                )
            }
        } else if self.hi == other.hi {
            if self.lo >= other.lo {
                Some(Uint256 { lo: self.lo - other.lo, hi: 0 })
            } else {
                None
            }
        } else {
            None
        }
    }

    /// Whether this amount is at least `other`.
    pub fn ge(self, other: Self) -> (r: bool)
        ensures
            r == (self.as_nat() >= other.as_nat()),
    {
        self.hi > other.hi || (self.hi == other.hi && self.lo >= other.lo)
    }

    /// Whether this amount is strictly below `other`.
    pub fn lt(self, other: Self) -> (r: bool)
        ensures
            r == (self.as_nat() < other.as_nat()),
    {
        !self.ge(other)
    }

    /// Whether this amount is zero.
    pub fn is_zero(self) -> (r: bool)
        ensures
            r == (self.as_nat() == 0),
    {
        self.lo == 0 && self.hi == 0
    }
}

} // verus!
