//! Unsigned 256-bit integers held as four little-endian 64-bit limbs.
//! The arithmetic itself is carried out by `alloy_primitives::U256`.
use vstd::prelude::*;

verus! {

/// 2^64, the weight of one limb.
pub open spec fn limb_base() -> nat {
    0x1_0000_0000_0000_0000nat
}

/// 2^256, one more than the largest representable value.
pub open spec fn modulus() -> nat {
    limb_base() * limb_base() * limb_base() * limb_base()
}

/// A digit below `b` plus `b` times a number below `m` stays below `b * m`.
proof fn lemma_digit(a: int, c: int, b: int, m: int)
    requires
        0 <= a < b,
        0 <= c < m,
    ensures
        a + b * c < b * m,
{
    assert(b * c <= b * (m - 1)) by (nonlinear_arith)
        requires
            0 <= c <= m - 1,
            b > 0,
    ;
    assert(b * (m - 1) == b * m - b) by (nonlinear_arith);
}

/// An unsigned 256-bit integer; `l0` is the least significant limb.
#[derive(Clone, Copy, Debug, PartialEq, Eq, Structural)]
pub struct Uint256 {
    pub l0: u64,
    pub l1: u64,
    pub l2: u64,
    pub l3: u64,
}

impl Uint256 {
    /// The number this value stands for.
    pub open spec fn value(self) -> nat {
        self.l0 as nat + limb_base() * (self.l1 as nat + limb_base() * (self.l2 as nat
            + limb_base() * self.l3 as nat))
    }

    pub proof fn lemma_value_bound(self)
        ensures
            self.value() < modulus(),
    {
        let b = limb_base();
        let (a0, a1, a2, a3) = (self.l0 as nat, self.l1 as nat, self.l2 as nat, self.l3 as nat);
        lemma_digit(a2 as int, a3 as int, b as int, b as int);
        lemma_digit(a1 as int, (a2 + b * a3) as int, b as int, (b * b) as int);
        lemma_digit(a0 as int, (a1 + b * (a2 + b * a3)) as int, b as int, (b * b * b) as int);
        assert(b * (b * b) == b * b * b) by (nonlinear_arith);
        assert(b * (b * b * b) == b * b * b * b) by (nonlinear_arith);
    }

    pub proof fn lemma_zero_iff(self)
        ensures
            (self.value() == 0) == (self.l0 == 0 && self.l1 == 0 && self.l2 == 0 && self.l3 == 0),
    {
        let b = limb_base();
        let (a0, a1, a2, a3) = (self.l0 as nat, self.l1 as nat, self.l2 as nat, self.l3 as nat);
        assert((a0 + b * (a1 + b * (a2 + b * a3)) == 0) ==> (a0 == 0 && a1 == 0 && a2 == 0 && a3
            == 0)) by (nonlinear_arith)
            requires
                b > 0,
        ;
    }

    pub fn zero() -> (r: Uint256)
        ensures
            r.value() == 0,
    {
        Uint256 { l0: 0, l1: 0, l2: 0, l3: 0 }
    }

    pub fn from_u64(x: u64) -> (r: Uint256)
        ensures
            r.value() == x,
    {
        Uint256 { l0: x, l1: 0, l2: 0, l3: 0 }
    }

    pub fn from_u128(x: u128) -> (r: Uint256)
        ensures
            r.value() == x,
    {
        let lo = (x & 0xffff_ffff_ffff_ffffu128) as u64;
        let hi = (x >> 64u128) as u64;
        proof {
            assert((x & 0xffff_ffff_ffff_ffffu128) + (x >> 64u128) * 0x1_0000_0000_0000_0000u128
                == x) by (bit_vector);
            assert(x & 0xffff_ffff_ffff_ffffu128 <= 0xffff_ffff_ffff_ffffu128) by (bit_vector);
            assert(x >> 64u128 <= 0xffff_ffff_ffff_ffffu128) by (bit_vector);
        }
        Uint256 { l0: lo, l1: hi, l2: 0, l3: 0 }
    }

    pub fn is_zero(&self) -> (r: bool)
        ensures
            r == (self.value() == 0),
    {
        proof {
            self.lemma_value_bound();
            self.lemma_zero_iff();
        }
        self.l0 == 0 && self.l1 == 0 && self.l2 == 0 && self.l3 == 0
    }

    /// The sum, or `None` when it does not fit.
    pub fn checked_add(&self, rhs: &Uint256) -> (r: Option<Uint256>)
        ensures
            r is Some == (self.value() + rhs.value() < modulus()),
            r matches Some(v) ==> v.value() == self.value() + rhs.value(),
    {
        let (v, o) = self.overflowing_add(rhs);
        if o {
            None
        } else {
            Some(v)
        }
    }

    /// The difference, or `None` when `rhs` is larger.
    pub fn checked_sub(&self, rhs: &Uint256) -> (r: Option<Uint256>)
        ensures
            r is Some == (self.value() >= rhs.value()),
            r matches Some(v) ==> v.value() == self.value() - rhs.value(),
    {
        let (v, o) = self.overflowing_sub(rhs);
        if o {
            None
        } else {
            Some(v)
        }
    }

    /// The product, or `None` when it does not fit.
    pub fn checked_mul(&self, rhs: &Uint256) -> (r: Option<Uint256>)
        ensures
            r is Some == (self.value() * rhs.value() < modulus()),
            r matches Some(v) ==> v.value() == self.value() * rhs.value(),
    {
        let (v, o) = self.overflowing_mul(rhs);
        if o {
            None
        } else {
            Some(v)
        }
    }

    /// The quotient rounded down, or `None` for a zero divisor.
    pub fn checked_div(&self, rhs: &Uint256) -> (r: Option<Uint256>)
        ensures
            r is Some == (rhs.value() > 0),
            r matches Some(v) ==> v.value() == self.value() / rhs.value(),
    {
        if rhs.is_zero() {
            None
        } else {
            Some(self.div(rhs))
        }
    }

    /// The difference, or zero when `rhs` is larger.
    pub fn saturating_sub(&self, rhs: &Uint256) -> (r: Uint256)
        ensures
            r.value() == if self.value() >= rhs.value() {
                self.value() - rhs.value()
            } else {
                0
            },
    {
        let (v, o) = self.overflowing_sub(rhs);
        if o {
            Uint256::zero()
        } else {
            v
        }
    }

    /// The smaller of the two.
    pub fn min(&self, rhs: &Uint256) -> (r: Uint256)
        ensures
            r.value() == if self.value() < rhs.value() {
                self.value()
            } else {
                rhs.value()
            },
    {
        if self.lt(rhs) {
            *self
        } else {
            *rhs
        }
    }

    /// Relies on `U256::overflowing_add`: the sum, with a flag set exactly
    /// when it does not fit in 256 bits.
    #[verifier::external_body]
    pub(crate) fn overflowing_add(&self, rhs: &Uint256) -> (r: (Uint256, bool))
        ensures
            r.1 == (self.value() + rhs.value() >= modulus()),
            !r.1 ==> r.0.value() == self.value() + rhs.value(),
    {
        let (v, o) = alloy_primitives::U256::from_limbs([self.l0, self.l1, self.l2, self.l3]).overflowing_add(
            alloy_primitives::U256::from_limbs([rhs.l0, rhs.l1, rhs.l2, rhs.l3]),
        );
        let l = v.into_limbs();
        (Uint256 { l0: l[0], l1: l[1], l2: l[2], l3: l[3] }, o)
    }

    /// Relies on `U256::overflowing_sub`: the difference, with a flag set
    /// exactly when `rhs` is larger.
    #[verifier::external_body]
    pub(crate) fn overflowing_sub(&self, rhs: &Uint256) -> (r: (Uint256, bool))
        ensures
            r.1 == (self.value() < rhs.value()),
            !r.1 ==> r.0.value() == self.value() - rhs.value(),
    {
        let (v, o) = alloy_primitives::U256::from_limbs([self.l0, self.l1, self.l2, self.l3]).overflowing_sub(
            alloy_primitives::U256::from_limbs([rhs.l0, rhs.l1, rhs.l2, rhs.l3]),
        );
        let l = v.into_limbs();
        (Uint256 { l0: l[0], l1: l[1], l2: l[2], l3: l[3] }, o)
    }

    /// Relies on `U256::overflowing_mul`: the product, with a flag set exactly
    /// when it does not fit in 256 bits.
    #[verifier::external_body]
    pub(crate) fn overflowing_mul(&self, rhs: &Uint256) -> (r: (Uint256, bool))
        ensures
            r.1 == (self.value() * rhs.value() >= modulus()),
            !r.1 ==> r.0.value() == self.value() * rhs.value(),
    {
        let (v, o) = alloy_primitives::U256::from_limbs([self.l0, self.l1, self.l2, self.l3]).overflowing_mul(
            alloy_primitives::U256::from_limbs([rhs.l0, rhs.l1, rhs.l2, rhs.l3]),
        );
        let l = v.into_limbs();
        (Uint256 { l0: l[0], l1: l[1], l2: l[2], l3: l[3] }, o)
    }

    /// Relies on `U256::wrapping_div`: the quotient rounded down; it panics
    /// on a zero divisor, which `requires` leaves out.
    #[verifier::external_body]
    pub(crate) fn div(&self, rhs: &Uint256) -> (r: Uint256)
        requires
            rhs.value() > 0,
        ensures
            r.value() == self.value() / rhs.value(),
    {
        let l = alloy_primitives::U256::from_limbs([self.l0, self.l1, self.l2, self.l3]).wrapping_div(
            alloy_primitives::U256::from_limbs([rhs.l0, rhs.l1, rhs.l2, rhs.l3]),
        ).into_limbs();
        Uint256 { l0: l[0], l1: l[1], l2: l[2], l3: l[3] }
    }

    /// Relies on `U256`'s `<`, which compares the numbers.
    #[verifier::external_body]
    pub(crate) fn lt(&self, rhs: &Uint256) -> (r: bool)
        ensures
            r == (self.value() < rhs.value()),
    {
        alloy_primitives::U256::from_limbs([self.l0, self.l1, self.l2, self.l3]) < alloy_primitives::U256::from_limbs([rhs.l0, rhs.l1, rhs.l2, rhs.l3])
    }
}

} // verus!
