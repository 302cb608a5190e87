//! Unsigned 256-bit quantities: four little-endian 64-bit limbs, with
//! arithmetic delegated to the `ruint` integers that `revm` re-exports.
use vstd::prelude::*;

verus! {

/// 2^64, the weight of one limb.
pub open spec fn limb_base() -> nat {
    0x1_0000_0000_0000_0000nat
}

/// 2^256, one past the largest value a `U256` holds.
pub open spec fn word_modulus() -> nat {
    limb_base() * limb_base() * limb_base() * limb_base()
}

/// An unsigned 256-bit integer, least significant limb first.
#[derive(Clone, Copy, Debug, PartialEq, Eq, Structural)]
pub struct U256 {
    pub l0: u64,
    pub l1: u64,
    pub l2: u64,
    pub l3: u64,
}

impl U256 {
    /// The integer this word stands for.
    pub open spec fn value(self) -> nat {
        self.l0 as nat + limb_base() * (self.l1 as nat + limb_base() * (self.l2 as nat
            + limb_base() * self.l3 as nat))
    }

    pub proof fn lemma_value_bound(self)
        ensures
            self.value() < word_modulus(),
    {
        let b = limb_base();
        let (a0, a1, a2, a3) = (self.l0 as nat, self.l1 as nat, self.l2 as nat, self.l3 as nat);
        assert(a3 + 1 <= b);
        assert(a2 + b * a3 + 1 <= b * b) by (nonlinear_arith)
            requires a2 < b, a3 + 1 <= b;
        assert(a1 + b * (a2 + b * a3) + 1 <= b * (b * b)) by (nonlinear_arith)
            requires a1 < b, a2 + b * a3 + 1 <= b * b;
        assert(a0 + b * (a1 + b * (a2 + b * a3)) + 1 <= b * (b * (b * b))) by (nonlinear_arith)
            requires a0 < b, a1 + b * (a2 + b * a3) + 1 <= b * (b * b);
        assert(b * (b * (b * b)) == b * b * b * b) by (nonlinear_arith);
    }

    pub fn zero() -> (r: U256)
        ensures
            r.value() == 0,
    {
        U256 { l0: 0, l1: 0, l2: 0, l3: 0 }
    }

    pub fn from_u64(x: u64) -> (r: U256)
        ensures
            r.value() == x,
    {
        U256 { l0: x, l1: 0, l2: 0, l3: 0 }
    }

    pub fn from_u128(x: u128) -> (r: U256)
        ensures
            r.value() == x,
    {
        let lo: u64 = (x % 0x1_0000_0000_0000_0000u128) as u64;
        let hi: u64 = (x / 0x1_0000_0000_0000_0000u128) as u64;
        U256 { l0: lo, l1: hi, l2: 0, l3: 0 }
    }

    /// `self + other`, where the sum fits in 256 bits.
    pub fn add(&self, other: &U256) -> (r: U256)
        requires
            self.value() + other.value() < word_modulus(),
        ensures
            r.value() == self.value() + other.value(),
    {
        match checked_add(self, other) {
            Some(s) => s,
            None => U256::zero(),
        }
    }

    /// `self + other`, or `None` where the sum does not fit in 256 bits.
    pub fn checked_add(&self, other: &U256) -> (r: Option<U256>)
        ensures
            match r {
                Some(s) => self.value() + other.value() < word_modulus() && s.value()
                    == self.value() + other.value(),
                None => self.value() + other.value() >= word_modulus(),
            },
    {
        checked_add(self, other)
    }

    /// `self - other`, where `other` is not larger.
    pub fn sub(&self, other: &U256) -> (r: U256)
        requires
            other.value() <= self.value(),
        ensures
            r.value() == self.value() - other.value(),
    {
        saturating_sub(self, other)
    }

    /// `self * other`, or `None` where the product does not fit in 256 bits.
    pub fn checked_mul(&self, other: &U256) -> (r: Option<U256>)
        ensures
            match r {
                Some(p) => self.value() * other.value() < word_modulus() && p.value()
                    == self.value() * other.value(),
                None => self.value() * other.value() >= word_modulus(),
            },
    {
        checked_mul(self, other)
    }

    /// `self * other`, where the product fits in 256 bits.
    pub fn mul(&self, other: &U256) -> (r: U256)
        requires
            self.value() * other.value() < word_modulus(),
        ensures
            r.value() == self.value() * other.value(),
    {
        match checked_mul(self, other) {
            Some(p) => p,
            None => U256::zero(),
        }
    }

    /// `self / other`, truncating, where `other` is not zero.
    pub fn div(&self, other: &U256) -> (r: U256)
        requires
            other.value() > 0,
        ensures
            r.value() == self.value() / other.value(),
    {
        match checked_div(self, other) {
            Some(q) => q,
            None => U256::zero(),
        }
    }

    /// `self - other`, or zero where `other` is larger.
    pub fn saturating_sub(&self, other: &U256) -> (r: U256)
        ensures
            r.value() == if other.value() <= self.value() {
                self.value() - other.value()
            } else {
                0
            },
    {
        saturating_sub(self, other)
    }

    /// The larger of the two.
    pub fn max(&self, other: &U256) -> (r: U256)
        ensures
            r.value() == if self.value() < other.value() {
                other.value()
            } else {
                self.value()
            },
    {
        match compare(self, other) {
            std::cmp::Ordering::Less => *other,
            _ => *self,
        }
    }

    pub fn cmp(&self, other: &U256) -> (r: std::cmp::Ordering)
        ensures
            r == std::cmp::Ordering::Less <==> self.value() < other.value(),
            r == std::cmp::Ordering::Equal <==> self.value() == other.value(),
            r == std::cmp::Ordering::Greater <==> self.value() > other.value(),
    {
        compare(self, other)
    }

    pub fn lt(&self, other: &U256) -> (r: bool)
        ensures
            r == (self.value() < other.value()),
    {
        match compare(self, other) {
            std::cmp::Ordering::Less => true,
            _ => false,
        }
    }
}

/// Relies on ruint's `Uint::checked_add`: the sum, or `None` where it
/// does not fit in 256 bits.
#[verifier::external_body]
fn checked_add(a: &U256, b: &U256) -> (r: Option<U256>)
    ensures
        match r {
            Some(s) => a.value() + b.value() < word_modulus() && s.value() == a.value()
                + b.value(),
            None => a.value() + b.value() >= word_modulus(),
        },
{
    let x = revm::primitives::U256::from_limbs([a.l0, a.l1, a.l2, a.l3]);
    let y = revm::primitives::U256::from_limbs([b.l0, b.l1, b.l2, b.l3]);
    x.checked_add(y).map(|s| {
        let l = s.into_limbs();
        U256 { l0: l[0], l1: l[1], l2: l[2], l3: l[3] }
    })
}

/// Relies on ruint's `Uint::checked_mul`: the product, or `None` where it
/// does not fit in 256 bits.
#[verifier::external_body]
fn checked_mul(a: &U256, b: &U256) -> (r: Option<U256>)
    ensures
        match r {
            Some(p) => a.value() * b.value() < word_modulus() && p.value() == a.value()
                * b.value(),
            None => a.value() * b.value() >= word_modulus(),
        },
{
    let x = revm::primitives::U256::from_limbs([a.l0, a.l1, a.l2, a.l3]);
    let y = revm::primitives::U256::from_limbs([b.l0, b.l1, b.l2, b.l3]);
    x.checked_mul(y).map(|p| {
        let l = p.into_limbs();
        U256 { l0: l[0], l1: l[1], l2: l[2], l3: l[3] }
    })
}

/// Relies on ruint's `Uint::checked_div`: the truncated quotient, or `None`
/// where the divisor is zero.
#[verifier::external_body]
fn checked_div(a: &U256, b: &U256) -> (r: Option<U256>)
    ensures
        match r {
            Some(q) => b.value() > 0 && q.value() == a.value() / b.value(),
            None => b.value() == 0,
        },
{
    let x = revm::primitives::U256::from_limbs([a.l0, a.l1, a.l2, a.l3]);
    let y = revm::primitives::U256::from_limbs([b.l0, b.l1, b.l2, b.l3]);
    x.checked_div(y).map(|q| {
        let l = q.into_limbs();
        U256 { l0: l[0], l1: l[1], l2: l[2], l3: l[3] }
    })
}

/// Relies on ruint's `Uint::saturating_sub`: the difference, or zero where
/// it would be negative.
#[verifier::external_body]
fn saturating_sub(a: &U256, b: &U256) -> (r: U256)
    ensures
        r.value() == if b.value() <= a.value() {
            a.value() - b.value()
        } else {
            0
        },
{
    let x = revm::primitives::U256::from_limbs([a.l0, a.l1, a.l2, a.l3]);
    let y = revm::primitives::U256::from_limbs([b.l0, b.l1, b.l2, b.l3]);
    let l = x.saturating_sub(y).into_limbs();
    U256 { l0: l[0], l1: l[1], l2: l[2], l3: l[3] }
}

/// Relies on ruint's `Ord for Uint`: numeric order of the two values.
#[verifier::external_body]
fn compare(a: &U256, b: &U256) -> (r: std::cmp::Ordering)
    ensures
        r == std::cmp::Ordering::Less <==> a.value() < b.value(),
        r == std::cmp::Ordering::Equal <==> a.value() == b.value(),
        r == std::cmp::Ordering::Greater <==> a.value() > b.value(),
{
    let x = revm::primitives::U256::from_limbs([a.l0, a.l1, a.l2, a.l3]);
    let y = revm::primitives::U256::from_limbs([b.l0, b.l1, b.l2, b.l3]);
    x.cmp(&y)
}

} // verus!
