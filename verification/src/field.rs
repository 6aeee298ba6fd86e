//! The base prime field.
//!
//! Every numeric value this library manipulates is an element of the prime
//! field of order [`FIELD_PRIME`], held in canonical form as a `u32` below the
//! modulus. The arithmetic itself is delegated to the `p3-baby-bear` crate;
//! the contracts state each operation as plain integer arithmetic modulo
//! [`FIELD_PRIME`].

use p3_baby_bear::BabyBear;
use p3_field::PrimeField32;
use vstd::prelude::*;

verus! {

/// Order of the base prime field (the BabyBear prime, `2^31 - 2^27 + 1`).
pub const FIELD_PRIME: u32 = 2013265921;

/// The field order as a mathematical integer.
pub open spec fn prime() -> int {
    FIELD_PRIME as int
}

/// Addition in the base field, on canonical representatives.
pub open spec fn f_add(a: int, b: int) -> int {
    (a + b) % prime()
}

/// Subtraction in the base field, on canonical representatives.
pub open spec fn f_sub(a: int, b: int) -> int {
    (a - b) % prime()
}

/// Multiplication in the base field, on canonical representatives.
pub open spec fn f_mul(a: int, b: int) -> int {
    (a * b) % prime()
}

/// Negation in the base field, on canonical representatives.
pub open spec fn f_neg(a: int) -> int {
    (0 - a) % prime()
}

/// An element of the base field, kept in canonical form (`value < FIELD_PRIME`).
#[derive(Clone, Copy, PartialEq, Eq, Structural, Debug)]
pub struct Felt {
    pub value: u32,
}

impl View for Felt {
    type V = int;

    open spec fn view(&self) -> int {
        self.value as int
    }
}

/// Relies on `p3_baby_bear::BabyBear`'s `Add` and
/// `p3_field::PrimeField32::as_canonical_u32`: the sum of the field elements
/// represented by `a` and `b`, reduced to canonical form.
#[verifier::external_body]
fn bb_add(a: u32, b: u32) -> (r: u32)
    ensures
        r as int == (a as int + b as int) % prime(),
{
    (BabyBear::new(a) + BabyBear::new(b)).as_canonical_u32()
}

/// Relies on `p3_baby_bear::BabyBear`'s `Sub` and
/// `p3_field::PrimeField32::as_canonical_u32`: the difference of the field
/// elements represented by `a` and `b`, reduced to canonical form.
#[verifier::external_body]
fn bb_sub(a: u32, b: u32) -> (r: u32)
    ensures
        r as int == (a as int - b as int) % prime(),
{
    (BabyBear::new(a) - BabyBear::new(b)).as_canonical_u32()
}

/// Relies on `p3_baby_bear::BabyBear`'s `Mul` and
/// `p3_field::PrimeField32::as_canonical_u32`: the product of the field
/// elements represented by `a` and `b`, reduced to canonical form.
#[verifier::external_body]
fn bb_mul(a: u32, b: u32) -> (r: u32)
    ensures
        r as int == (a as int * b as int) % prime(),
{
    (BabyBear::new(a) * BabyBear::new(b)).as_canonical_u32()
}

impl Felt {
    /// The representative is in canonical form.
    pub open spec fn wf(self) -> bool {
        self.value < FIELD_PRIME
    }

    /// The field element represented by an arbitrary `u32`.
    pub fn new(v: u32) -> (r: Felt)
        ensures
            r.wf(),
            r@ == v as int % prime(),
    {
        Felt { value: v % FIELD_PRIME }
    }

    /// The additive identity.
    pub fn zero() -> (r: Felt)
        ensures
            r.wf(),
            r@ == 0,
    {
        Felt { value: 0 }
    }

    /// The multiplicative identity.
    pub fn one() -> (r: Felt)
        ensures
            r.wf(),
            r@ == 1,
    {
        Felt { value: 1 }
    }

    /// Field addition.
    pub fn add(self, rhs: Felt) -> (r: Felt)
        ensures
            r.wf(),
            r@ == f_add(self@, rhs@),
    {
        Felt { value: bb_add(self.value, rhs.value) }
    }

    /// Field subtraction.
    pub fn sub(self, rhs: Felt) -> (r: Felt)
        ensures
            r.wf(),
            r@ == f_sub(self@, rhs@),
    {
        Felt { value: bb_sub(self.value, rhs.value) }
    }

    /// Field multiplication.
    pub fn mul(self, rhs: Felt) -> (r: Felt)
        ensures
            r.wf(),
            r@ == f_mul(self@, rhs@),
    {
        Felt { value: bb_mul(self.value, rhs.value) }
    }

    /// Field negation.
    pub fn neg(self) -> (r: Felt)
        ensures
            r.wf(),
            r@ == f_neg(self@),
    {
        Felt { value: bb_sub(0, self.value) }
    }
}

} // verus!
