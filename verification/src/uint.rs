//! 256-bit unsigned integers, with the arithmetic of `primitive_types::U256`.
use vstd::prelude::*;

verus! {

/// A 256-bit unsigned integer, held as four 64-bit limbs, the lowest first.
#[derive(Clone, Copy, Debug, PartialEq, Eq)]
pub struct U256 {
    pub limbs: [u64; 4],
}

impl View for U256 {
    type V = nat;

    /// The number that the limbs stand for.
    open spec fn view(&self) -> nat {
        (((self.limbs@[3] as nat * 0x1_0000_0000_0000_0000 + self.limbs@[2] as nat)
            * 0x1_0000_0000_0000_0000 + self.limbs@[1] as nat) * 0x1_0000_0000_0000_0000
            + self.limbs@[0] as nat) as nat
    }
}

/// Two to the power 256: one more than the largest value.
pub open spec fn u256_limit() -> nat {
    (0x1_0000_0000_0000_0000 * 0x1_0000_0000_0000_0000 * 0x1_0000_0000_0000_0000
        * 0x1_0000_0000_0000_0000) as nat
}

/// The integer with the value `n`; meaningful below two to the power 256.
pub open spec fn u256_of(n: nat) -> U256 {
    choose|x: U256| x@ == n
}

/// An integer is the integer of its own value.
pub proof fn lemma_u256_of(x: U256)
    ensures
        u256_of(x@) == x,
{
    let c = u256_of(x@);
    assert(c@ == x@);
    c.lemma_value_determines(x);
}

/// Calls `primitive_types::U256::checked_add`: the sum, unless it passes the
/// largest value.
#[verifier::external_body]
fn wide_add(a: &U256, b: &U256) -> (sum: Option<U256>)
    ensures
        match sum {
            Some(s) => s@ == a@ + b@,
            None => a@ + b@ >= u256_limit(),
        },
{
    primitive_types::U256(a.limbs).checked_add(primitive_types::U256(b.limbs)).map(
        |s| U256 { limbs: s.0 },
    )
}

/// Calls `primitive_types::U256::checked_sub`: the difference, unless `b` is the larger.
#[verifier::external_body]
fn wide_sub(a: &U256, b: &U256) -> (difference: Option<U256>)
    ensures
        match difference {
            Some(d) => d@ == a@ - b@,
            None => a@ < b@,
        },
{
    primitive_types::U256(a.limbs).checked_sub(primitive_types::U256(b.limbs)).map(
        |d| U256 { limbs: d.0 },
    )
}

/// Calls `primitive_types::U256::checked_div`: the quotient rounded down, unless
/// `b` is zero.
#[verifier::external_body]
fn wide_div(a: &U256, b: &U256) -> (quotient: Option<U256>)
    ensures
        match quotient {
            Some(q) => b@ != 0 && q@ == a@ / b@,
            None => b@ == 0,
        },
{
    primitive_types::U256(a.limbs).checked_div(primitive_types::U256(b.limbs)).map(
        |q| U256 { limbs: q.0 },
    )
}

impl U256 {
    /// The integer with the value of `low`.
    pub fn from_u64(low: u64) -> (value: U256)
        ensures
            value@ == low,
    {
        U256 { limbs: [low, 0, 0, 0] }
    }

    /// Zero.
    pub fn zero() -> (value: U256)
        ensures
            value@ == 0,
    {
        U256 { limbs: [0, 0, 0, 0] }
    }

    /// Every value lies below two to the power 256.
    pub proof fn lemma_bounded(self)
        ensures
            self@ < u256_limit(),
    {
    }

    /// Two integers with the same value are the same integer.
    pub proof fn lemma_value_determines(self, other: U256)
        requires
            self@ == other@,
        ensures
            self == other,
    {
        assert(self.limbs@[0] == other.limbs@[0]);
        assert(self.limbs@[1] == other.limbs@[1]);
        assert(self.limbs@[2] == other.limbs@[2]);
        assert(self.limbs@[3] == other.limbs@[3]);
        assert(self.limbs =~= other.limbs);
    }

    /// Whether the value is zero.
    pub fn is_zero(&self) -> (zero: bool)
        ensures
            zero == (self@ == 0),
    {
        self.limbs[0] == 0 && self.limbs[1] == 0 && self.limbs[2] == 0 && self.limbs[3] == 0
    }

    /// Whether `self` is the smaller of the two.
    pub fn lt(&self, other: &U256) -> (less: bool)
        ensures
            less == (self@ < other@),
    {
        if self.limbs[3] != other.limbs[3] {
            self.limbs[3] < other.limbs[3]
        } else if self.limbs[2] != other.limbs[2] {
            self.limbs[2] < other.limbs[2]
        } else if self.limbs[1] != other.limbs[1] {
            self.limbs[1] < other.limbs[1]
        } else {
            self.limbs[0] < other.limbs[0]
        }
    }

    /// Whether `self` is not the larger of the two.
    pub fn le(&self, other: &U256) -> (at_most: bool)
        ensures
            at_most == (self@ <= other@),
    {
        !other.lt(self)
    }

    /// The sum, or `None` where it does not fit in 256 bits.
    pub fn checked_add(&self, other: &U256) -> (sum: Option<U256>)
        ensures
            sum.is_some() == (self@ + other@ < u256_limit()),
            sum.is_some() ==> sum.unwrap()@ == self@ + other@,
    {
        let sum = wide_add(self, other);
        proof {
            if let Some(s) = sum {
                s.lemma_bounded();
            }
        }
        sum
    }

    /// The difference, or `None` where `other` is the larger.
    pub fn checked_sub(&self, other: &U256) -> (difference: Option<U256>)
        ensures
            difference.is_some() == (self@ >= other@),
            difference.is_some() ==> difference.unwrap()@ == self@ - other@,
    {
        wide_sub(self, other)
    }

    /// The quotient rounded down, or `None` where `other` is zero.
    pub fn checked_div(&self, other: &U256) -> (quotient: Option<U256>)
        ensures
            quotient.is_some() == (other@ != 0),
            quotient.is_some() ==> quotient.unwrap()@ == self@ / other@,
    {
        wide_div(self, other)
    }
}

} // verus!
