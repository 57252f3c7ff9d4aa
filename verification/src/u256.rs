//! 256-bit unsigned integers.
//!
//! [`U256`] carries the four limbs of a value as plain data, so that every
//! contract of the library can speak of the number that they denote. The
//! arithmetic itself is that of `alloy::primitives::U256`: each operation below
//! that is marked `external_body` makes one call into it and states, over the
//! numbers, what that call returns.
use vstd::prelude::*;

verus! {

/// Two to the 64th power, the weight of the second limb.
pub open spec fn two_64() -> nat {
    0x1_0000_0000_0000_0000nat
}

/// Two to the 256th power.
pub open spec fn two_256() -> nat {
    0x1_0000_0000_0000_0000_0000_0000_0000_0000_0000_0000_0000_0000_0000_0000_0000_0000nat
}

/// The largest value of 256 bits.
pub open spec fn u256_max() -> nat {
    (two_256() - 1) as nat
}

/// `n` where it fits in 256 bits, and otherwise the largest value that does.
pub open spec fn cap(n: nat) -> nat {
    if n <= u256_max() {
        n
    } else {
        u256_max()
    }
}

/// `a - b`, or zero where `b` is the larger.
pub open spec fn monus(a: nat, b: nat) -> nat {
    if b <= a {
        (a - b) as nat
    } else {
        0
    }
}

/// The quotient of `a` by `b`, rounded down, and zero where `b` is zero.
pub open spec fn quotient(a: nat, b: nat) -> nat {
    if b == 0 {
        0
    } else {
        a / b
    }
}

/// The number that four limbs denote, least significant limb first.
pub open spec fn limbs_value(limbs: Seq<u64>) -> nat {
    limbs[0] as nat + two_64() * (limbs[1] as nat + two_64() * (limbs[2] as nat + two_64() * (
    limbs[3] as nat)))
}

/// A 256-bit unsigned integer.
#[derive(Clone, Copy, Debug, PartialEq, Eq)]
pub struct U256 {
    limbs: [u64; 4],
}

impl View for U256 {
    type V = nat;

    closed spec fn view(&self) -> nat {
        limbs_value(self.limbs@)
    }
}

impl U256 {
    /// Every value fits in 256 bits.
    pub proof fn law_fits_in_256_bits(self)
        ensures
            self@ <= u256_max(),
    {
    }

    /// The value whose limbs are given, least significant limb first.
    pub fn from_limbs(limbs: [u64; 4]) -> (r: U256)
        ensures
            r@ == limbs_value(limbs@),
    {
        U256 { limbs }
    }

    /// The limbs of the value, least significant limb first.
    pub fn into_limbs(self) -> (r: [u64; 4])
        ensures
            limbs_value(r@) == self@,
    {
        self.limbs
    }

    /// The value of a 128-bit integer.
    ///
    /// `U256::from` of `alloy::primitives`, on a `u128`: every such value fits,
    /// and the conversion keeps it.
    #[verifier::external_body]
    pub(crate) fn from_u128(value: u128) -> (r: U256)
        ensures
            r@ == value as nat,
    {
        U256 { limbs: alloy::primitives::U256::from(value).into_limbs() }
    }

    /// The value as a 128-bit integer.
    ///
    /// `U256::to::<u128>` of `alloy::primitives`, which panics on a value that
    /// does not fit and keeps every other.
    #[verifier::external_body]
    pub(crate) fn to_u128(self) -> (r: u128)
        requires
            self@ <= u128::MAX,
        ensures
            r as nat == self@,
    {
        alloy::primitives::U256::from_limbs(self.limbs).to::<u128>()
    }

    /// Whether the value is zero.
    ///
    /// `U256::is_zero` of `alloy::primitives`.
    #[verifier::external_body]
    pub(crate) fn is_zero(self) -> (r: bool)
        ensures
            r == (self@ == 0),
    {
        alloy::primitives::U256::from_limbs(self.limbs).is_zero()
    }

    /// The larger of two values.
    ///
    /// `Ord::max` of `alloy::primitives::U256`, which orders by value.
    #[verifier::external_body]
    pub(crate) fn max(self, rhs: U256) -> (r: U256)
        ensures
            r@ == (if self@ <= rhs@ { rhs@ } else { self@ }),
    {
        let a = alloy::primitives::U256::from_limbs(self.limbs);
        let b = alloy::primitives::U256::from_limbs(rhs.limbs);
        U256 { limbs: a.max(b).into_limbs() }
    }

    /// `self + rhs`, or the largest value where the sum does not fit.
    ///
    /// `U256::saturating_add` of `alloy::primitives`.
    #[verifier::external_body]
    pub(crate) fn saturating_add(self, rhs: U256) -> (r: U256)
        ensures
            r@ == cap(self@ + rhs@),
    {
        let a = alloy::primitives::U256::from_limbs(self.limbs);
        let b = alloy::primitives::U256::from_limbs(rhs.limbs);
        U256 { limbs: a.saturating_add(b).into_limbs() }
    }

    /// `self - rhs`, or zero where the difference is negative.
    ///
    /// `U256::saturating_sub` of `alloy::primitives`.
    #[verifier::external_body]
    pub(crate) fn saturating_sub(self, rhs: U256) -> (r: U256)
        ensures
            r@ == monus(self@, rhs@),
    {
        let a = alloy::primitives::U256::from_limbs(self.limbs);
        let b = alloy::primitives::U256::from_limbs(rhs.limbs);
        U256 { limbs: a.saturating_sub(b).into_limbs() }
    }

    /// `self * rhs`, or the largest value where the product does not fit.
    ///
    /// `U256::saturating_mul` of `alloy::primitives`.
    #[verifier::external_body]
    pub(crate) fn saturating_mul(self, rhs: U256) -> (r: U256)
        ensures
            r@ == cap(self@ * rhs@),
    {
        let a = alloy::primitives::U256::from_limbs(self.limbs);
        let b = alloy::primitives::U256::from_limbs(rhs.limbs);
        U256 { limbs: a.saturating_mul(b).into_limbs() }
    }

    /// The quotient of `self` by `rhs`, rounded down, unless `rhs` is zero.
    ///
    /// `U256::checked_div` of `alloy::primitives`.
    #[verifier::external_body]
    pub(crate) fn checked_div(self, rhs: U256) -> (r: Option<U256>)
        ensures
            r is Some <==> rhs@ != 0,
            r matches Some(q) ==> q@ == self@ / rhs@,
    {
        let a = alloy::primitives::U256::from_limbs(self.limbs);
        let b = alloy::primitives::U256::from_limbs(rhs.limbs);
        a.checked_div(b).map(|q| U256 { limbs: q.into_limbs() })
    }

    /// The remainder of `self` by `rhs`, unless `rhs` is zero.
    ///
    /// `U256::checked_rem` of `alloy::primitives`.
    #[verifier::external_body]
    pub(crate) fn checked_rem(self, rhs: U256) -> (r: Option<U256>)
        ensures
            r is Some <==> rhs@ != 0,
            r matches Some(m) ==> m@ == self@ % rhs@,
    {
        let a = alloy::primitives::U256::from_limbs(self.limbs);
        let b = alloy::primitives::U256::from_limbs(rhs.limbs);
        a.checked_rem(b).map(|m| U256 { limbs: m.into_limbs() })
    }

    /// `self + rhs`, modulo two to the 256th power.
    ///
    /// The `+` of `alloy::primitives::U256`, which wraps around.
    #[verifier::external_body]
    pub(crate) fn wrapping_add(self, rhs: U256) -> (r: U256)
        ensures
            r@ == (self@ + rhs@) % two_256(),
    {
        let a = alloy::primitives::U256::from_limbs(self.limbs);
        let b = alloy::primitives::U256::from_limbs(rhs.limbs);
        U256 { limbs: (a + b).into_limbs() }
    }

    /// `self * rhs`, modulo two to the 256th power.
    ///
    /// The `*` of `alloy::primitives::U256`, which wraps around.
    #[verifier::external_body]
    pub(crate) fn wrapping_mul(self, rhs: U256) -> (r: U256)
        ensures
            r@ == (self@ * rhs@) % two_256(),
    {
        let a = alloy::primitives::U256::from_limbs(self.limbs);
        let b = alloy::primitives::U256::from_limbs(rhs.limbs);
        U256 { limbs: (a * b).into_limbs() }
    }

    /// The quotient of `self` by `rhs`, rounded down.
    ///
    /// The `/` of `alloy::primitives::U256`, which panics where `rhs` is zero.
    #[verifier::external_body]
    pub(crate) fn wrapping_div(self, rhs: U256) -> (r: U256)
        requires
            rhs@ != 0,
        ensures
            r@ == self@ / rhs@,
    {
        let a = alloy::primitives::U256::from_limbs(self.limbs);
        let b = alloy::primitives::U256::from_limbs(rhs.limbs);
        U256 { limbs: (a / b).into_limbs() }
    }

    /// The quotient of `self` by `rhs`, rounded down, and zero where `rhs` is
    /// zero.
    pub fn div_or_zero(self, rhs: U256) -> (r: U256)
        ensures
            r@ == quotient(self@, rhs@),
    {
        match self.checked_div(rhs) {
            Some(q) => q,
            None => U256::from_u128(0),
        }
    }

    /// The remainder of `self` by `rhs`, and zero where `rhs` is zero.
    pub fn rem_or_zero(self, rhs: U256) -> (r: U256)
        ensures
            r@ == (if rhs@ == 0 { 0 } else { self@ % rhs@ }),
    {
        match self.checked_rem(rhs) {
            Some(m) => m,
            None => U256::from_u128(0),
        }
    }

    /// Whether the value fits in 128 bits.
    pub fn fits_u128(self) -> (r: bool)
        ensures
            r == (self@ <= u128::MAX),
    {
        self.limbs[2] == 0 && self.limbs[3] == 0
    }
}

/// What is cut off at 256 bits is what exceeds 256 bits, and nothing else.
pub proof fn law_cap(n: nat)
    ensures
        n <= 0xffff_ffff_ffff_ffff_ffff_ffff_ffff_ffff_ffff_ffff_ffff_ffff_ffff_ffff_ffff_ffff
            ==> cap(n) == n,
        n >= 0xffff_ffff_ffff_ffff_ffff_ffff_ffff_ffff_ffff_ffff_ffff_ffff_ffff_ffff_ffff_ffff
            ==> cap(n)
            == 0xffff_ffff_ffff_ffff_ffff_ffff_ffff_ffff_ffff_ffff_ffff_ffff_ffff_ffff_ffff_ffff,
        u256_max()
            == 0xffff_ffff_ffff_ffff_ffff_ffff_ffff_ffff_ffff_ffff_ffff_ffff_ffff_ffff_ffff_ffff,
        two_256() == u256_max() + 1,
{
}

/// What is subtracted can be added back, unless the difference was cut off.
pub proof fn law_monus(a: nat, b: nat)
    ensures
        b <= a ==> monus(a, b) + b == a,
        a <= b ==> monus(a, b) == 0,
{
}

/// A quotient is the number of whole divisors in the dividend.
pub proof fn law_quotient(a: nat, b: nat)
    ensures
        b > 0 ==> quotient(a, b) * b <= a < (quotient(a, b) + 1) * b,
        b == 0 ==> quotient(a, b) == 0,
{
    if b > 0 {
        let q = a / b;
        vstd::arithmetic::div_mod::lemma_fundamental_div_mod(a as int, b as int);
        assert(q * b <= a < (q + 1) * b) by (nonlinear_arith)
            requires
                a == b * q + a % b,
                0 <= a % b < b,
        ;
    }
}

/// Each limb weighs two to the 64th power times the one before.
pub proof fn law_limbs_value(limbs: Seq<u64>)
    requires
        limbs.len() == 4,
    ensures
        limbs_value(limbs) == limbs[0] + 0x1_0000_0000_0000_0000 * limbs[1]
            + 0x1_0000_0000_0000_0000_0000_0000_0000_0000 * limbs[2]
            + 0x1_0000_0000_0000_0000_0000_0000_0000_0000_0000_0000_0000_0000 * limbs[3],
{
}

} // verus!
