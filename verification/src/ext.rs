//! The degree-4 extension field over the base prime field.
//!
//! The running-sum lookup argument works in a proper extension of the base
//! field so that the random challenges live in a large enough space. A value
//! is held as its four basis coefficients in canonical form; its mathematical
//! model is a length-4 sequence of integers below [`crate::field::FIELD_PRIME`].
//!
//! Coefficient-wise operations (addition, subtraction, negation, scaling by a
//! base-field element) have exact contracts. Full extension multiplication
//! and inversion are delegated to `p3-field` and only named, since their
//! closed forms are not needed by any proof in this library: the lookup
//! argument relies on them solely as deterministic functions of their
//! arguments.

use p3_baby_bear::BabyBear;
use p3_field::BasedVectorSpace;
use p3_field::Field;
use p3_field::PrimeField32;
use p3_field::extension::BinomialExtensionField;
use vstd::prelude::*;

use crate::field::Felt;
use crate::field::prime;

verus! {

/// Degree of the extension over the base field.
pub const EXT_DEGREE: usize = 4;

/// An element of the degree-4 extension field, as canonical basis coefficients.
#[derive(Clone, Copy, PartialEq, Eq, Structural, Debug)]
pub struct ExtFelt {
    pub c0: u32,
    pub c1: u32,
    pub c2: u32,
    pub c3: u32,
}

impl View for ExtFelt {
    type V = Seq<int>;

    open spec fn view(&self) -> Seq<int> {
        seq![self.c0 as int, self.c1 as int, self.c2 as int, self.c3 as int]
    }
}

/// A sequence is the model of a well-formed extension element: four canonical
/// coefficients.
pub open spec fn ext_wf(s: Seq<int>) -> bool {
    &&& s.len() == EXT_DEGREE
    &&& forall|i: int| 0 <= i < s.len() ==> 0 <= #[trigger] s[i] < prime()
}

/// The zero element of the extension field, as a model value.
pub open spec fn szero() -> Seq<int> {
    seq![0int, 0int, 0int, 0int]
}

/// The one element of the extension field, as a model value.
pub open spec fn sone() -> Seq<int> {
    seq![1int, 0int, 0int, 0int]
}

/// Coefficient-wise addition: the model of extension-field addition.
pub open spec fn sadd(a: Seq<int>, b: Seq<int>) -> Seq<int> {
    Seq::new(4, |i: int| (a[i] + b[i]) % prime())
}

/// Coefficient-wise subtraction: the model of extension-field subtraction.
pub open spec fn ssub(a: Seq<int>, b: Seq<int>) -> Seq<int> {
    Seq::new(4, |i: int| (a[i] - b[i]) % prime())
}

/// Coefficient-wise negation: the model of extension-field negation.
pub open spec fn sneg(a: Seq<int>) -> Seq<int> {
    Seq::new(4, |i: int| (0 - a[i]) % prime())
}

/// Coefficient-wise scaling by a base-field element: the model of multiplying
/// an extension element by the embedding of a base-field element.
pub open spec fn sscale(m: int, a: Seq<int>) -> Seq<int> {
    Seq::new(4, |i: int| (m * a[i]) % prime())
}

/// The product of two extension-field elements, as computed by
/// `p3_field`'s binomial extension multiplication. Its closed form is not
/// needed by any proof here, so it is only named.
pub uninterp spec fn ext_mul_spec(a: Seq<int>, b: Seq<int>) -> Seq<int>;

/// The multiplicative inverse of a nonzero extension-field element, as
/// computed by `p3_field`. Its closed form is not needed by any proof here,
/// so it is only named.
pub uninterp spec fn ext_inv_spec(a: Seq<int>) -> Seq<int>;

/// Relies on `p3_field::extension::BinomialExtensionField` addition, which is
/// coefficient-wise addition in the base field, and on
/// `p3_field::BasedVectorSpace::as_basis_coefficients_slice` /
/// `p3_field::PrimeField32::as_canonical_u32` for the conversions.
#[verifier::external_body]
fn p3_ext_add(a: &ExtFelt, b: &ExtFelt) -> (r: ExtFelt)
    ensures
        r@ == sadd(a@, b@),
{
    let x = BinomialExtensionField::<BabyBear, 4>::new(
        [BabyBear::new(a.c0), BabyBear::new(a.c1), BabyBear::new(a.c2), BabyBear::new(a.c3)],
    );
    let y = BinomialExtensionField::<BabyBear, 4>::new(
        [BabyBear::new(b.c0), BabyBear::new(b.c1), BabyBear::new(b.c2), BabyBear::new(b.c3)],
    );
    let s = x + y;
    let c: &[BabyBear] = s.as_basis_coefficients_slice();
    ExtFelt {
        c0: c[0].as_canonical_u32(),
        c1: c[1].as_canonical_u32(),
        c2: c[2].as_canonical_u32(),
        c3: c[3].as_canonical_u32(),
    }
}

/// Relies on `p3_field::extension::BinomialExtensionField` subtraction, which
/// is coefficient-wise subtraction in the base field.
#[verifier::external_body]
fn p3_ext_sub(a: &ExtFelt, b: &ExtFelt) -> (r: ExtFelt)
    ensures
        r@ == ssub(a@, b@),
{
    let x = BinomialExtensionField::<BabyBear, 4>::new(
        [BabyBear::new(a.c0), BabyBear::new(a.c1), BabyBear::new(a.c2), BabyBear::new(a.c3)],
    );
    let y = BinomialExtensionField::<BabyBear, 4>::new(
        [BabyBear::new(b.c0), BabyBear::new(b.c1), BabyBear::new(b.c2), BabyBear::new(b.c3)],
    );
    let s = x - y;
    let c: &[BabyBear] = s.as_basis_coefficients_slice();
    ExtFelt {
        c0: c[0].as_canonical_u32(),
        c1: c[1].as_canonical_u32(),
        c2: c[2].as_canonical_u32(),
        c3: c[3].as_canonical_u32(),
    }
}

/// Relies on `p3_field::extension::BinomialExtensionField` negation, which is
/// coefficient-wise negation in the base field.
#[verifier::external_body]
fn p3_ext_neg(a: &ExtFelt) -> (r: ExtFelt)
    ensures
        r@ == sneg(a@),
{
    let x = BinomialExtensionField::<BabyBear, 4>::new(
        [BabyBear::new(a.c0), BabyBear::new(a.c1), BabyBear::new(a.c2), BabyBear::new(a.c3)],
    );
    let s = -x;
    let c: &[BabyBear] = s.as_basis_coefficients_slice();
    ExtFelt {
        c0: c[0].as_canonical_u32(),
        c1: c[1].as_canonical_u32(),
        c2: c[2].as_canonical_u32(),
        c3: c[3].as_canonical_u32(),
    }
}

/// Relies on `p3_field::extension::BinomialExtensionField`'s multiplication by
/// a base-field element (`ext_base_mul`), which multiplies each coefficient by
/// that element.
#[verifier::external_body]
fn p3_ext_scale(m: &Felt, a: &ExtFelt) -> (r: ExtFelt)
    ensures
        r@ == sscale(m@, a@),
{
    let x = BinomialExtensionField::<BabyBear, 4>::new(
        [BabyBear::new(a.c0), BabyBear::new(a.c1), BabyBear::new(a.c2), BabyBear::new(a.c3)],
    );
    let s = x * BabyBear::new(m.value);
    let c: &[BabyBear] = s.as_basis_coefficients_slice();
    ExtFelt {
        c0: c[0].as_canonical_u32(),
        c1: c[1].as_canonical_u32(),
        c2: c[2].as_canonical_u32(),
        c3: c[3].as_canonical_u32(),
    }
}

/// Relies on `p3_field::extension::BinomialExtensionField` multiplication in
/// the extension ring; the result is a function of the two arguments alone and
/// comes back in canonical form.
#[verifier::external_body]
fn p3_ext_mul(a: &ExtFelt, b: &ExtFelt) -> (r: ExtFelt)
    ensures
        r@ == ext_mul_spec(a@, b@),
        ext_wf(r@),
{
    let x = BinomialExtensionField::<BabyBear, 4>::new(
        [BabyBear::new(a.c0), BabyBear::new(a.c1), BabyBear::new(a.c2), BabyBear::new(a.c3)],
    );
    let y = BinomialExtensionField::<BabyBear, 4>::new(
        [BabyBear::new(b.c0), BabyBear::new(b.c1), BabyBear::new(b.c2), BabyBear::new(b.c3)],
    );
    let s = x * y;
    let c: &[BabyBear] = s.as_basis_coefficients_slice();
    ExtFelt {
        c0: c[0].as_canonical_u32(),
        c1: c[1].as_canonical_u32(),
        c2: c[2].as_canonical_u32(),
        c3: c[3].as_canonical_u32(),
    }
}

/// Relies on `p3_field::Field::inverse` for the binomial extension field: the
/// multiplicative inverse, a function of the argument alone, defined for every
/// nonzero element (the `requires` keeps zero out, on which `inverse` panics).
#[verifier::external_body]
fn p3_ext_inverse(a: &ExtFelt) -> (r: ExtFelt)
    requires
        ext_wf(a@),
        a@ != szero(),
    ensures
        r@ == ext_inv_spec(a@),
        ext_wf(r@),
{
    let x = BinomialExtensionField::<BabyBear, 4>::new(
        [BabyBear::new(a.c0), BabyBear::new(a.c1), BabyBear::new(a.c2), BabyBear::new(a.c3)],
    );
    let s = x.inverse();
    let c: &[BabyBear] = s.as_basis_coefficients_slice();
    ExtFelt {
        c0: c[0].as_canonical_u32(),
        c1: c[1].as_canonical_u32(),
        c2: c[2].as_canonical_u32(),
        c3: c[3].as_canonical_u32(),
    }
}

impl ExtFelt {
    /// All four coefficients are in canonical form.
    pub open spec fn wf(self) -> bool {
        ext_wf(self@)
    }

    /// The additive identity.
    pub fn zero() -> (r: ExtFelt)
        ensures
            r.wf(),
            r@ == szero(),
    {
        let r = ExtFelt { c0: 0, c1: 0, c2: 0, c3: 0 };
        proof {
            assert(r@ =~= szero());
        }
        r
    }

    /// The multiplicative identity.
    pub fn one() -> (r: ExtFelt)
        ensures
            r.wf(),
            r@ == sone(),
    {
        let r = ExtFelt { c0: 1, c1: 0, c2: 0, c3: 0 };
        proof {
            assert(r@ =~= sone());
        }
        r
    }

    /// The embedding of a base-field element into the extension field.
    pub fn from_felt(f: Felt) -> (r: ExtFelt)
        requires
            f.wf(),
        ensures
            r.wf(),
            r@ == seq![f@, 0int, 0int, 0int],
    {
        let r = ExtFelt { c0: f.value, c1: 0, c2: 0, c3: 0 };
        proof {
            assert(r@ =~= seq![f@, 0int, 0int, 0int]);
        }
        r
    }

    /// Extension-field addition.
    pub fn add(self, rhs: ExtFelt) -> (r: ExtFelt)
        ensures
            r.wf(),
            r@ == sadd(self@, rhs@),
    {
        let r = p3_ext_add(&self, &rhs);
        proof {
            lemma_ext_ops_wf(self@, rhs@);
        }
        r
    }

    /// Extension-field subtraction.
    pub fn sub(self, rhs: ExtFelt) -> (r: ExtFelt)
        ensures
            r.wf(),
            r@ == ssub(self@, rhs@),
    {
        let r = p3_ext_sub(&self, &rhs);
        proof {
            lemma_ext_ops_wf(self@, rhs@);
        }
        r
    }

    /// Extension-field negation.
    pub fn neg(self) -> (r: ExtFelt)
        ensures
            r.wf(),
            r@ == sneg(self@),
    {
        let r = p3_ext_neg(&self);
        proof {
            lemma_ext_ops_wf(self@, self@);
        }
        r
    }

    /// Multiplication by (the embedding of) a base-field element.
    pub fn scale(self, m: Felt) -> (r: ExtFelt)
        ensures
            r.wf(),
            r@ == sscale(m@, self@),
    {
        let r = p3_ext_scale(&m, &self);
        proof {
            lemma_ext_scale_wf(m@, self@);
        }
        r
    }

    /// Extension-field multiplication.
    pub fn mul(self, rhs: ExtFelt) -> (r: ExtFelt)
        ensures
            r.wf(),
            r@ == ext_mul_spec(self@, rhs@),
    {
        p3_ext_mul(&self, &rhs)
    }

    /// Extension-field multiplicative inverse of a nonzero element.
    pub fn inverse(self) -> (r: ExtFelt)
        requires
            self.wf(),
            self@ != szero(),
        ensures
            r.wf(),
            r@ == ext_inv_spec(self@),
    {
        p3_ext_inverse(&self)
    }

    /// Whether this is the zero element.
    pub fn is_zero(self) -> (r: bool)
        requires
            self.wf(),
        ensures
            r == (self@ == szero()),
    {
        let r = self.c0 == 0 && self.c1 == 0 && self.c2 == 0 && self.c3 == 0;
        proof {
            if r {
                assert(self@ =~= szero());
            } else {
                assert(self@ != szero());
            }
        }
        r
    }
}

/// The coefficient-wise operations return well-formed values: every
/// coefficient is a remainder modulo the field order.
pub proof fn lemma_ext_ops_wf(a: Seq<int>, b: Seq<int>)
    ensures
        ext_wf(sadd(a, b)),
        ext_wf(ssub(a, b)),
        ext_wf(sneg(a)),
{
}

/// Scaling returns a well-formed value.
pub proof fn lemma_ext_scale_wf(m: int, a: Seq<int>)
    ensures
        ext_wf(sscale(m, a)),
{
}

/// Adding and then subtracting the same well-formed value cancels.
pub proof fn lemma_sub_add_cancel(x: Seq<int>, y: Seq<int>)
    requires
        ext_wf(x),
        ext_wf(y),
    ensures
        ssub(sadd(x, y), x) == y,
{
    assert forall|i: int| 0 <= i < 4 implies ssub(sadd(x, y), x)[i] == y[i] by {
        let s = (x[i] + y[i]) % prime();
        if x[i] + y[i] < prime() {
            vstd::arithmetic::div_mod::lemma_small_mod((x[i] + y[i]) as nat, prime() as nat);
            vstd::arithmetic::div_mod::lemma_small_mod(y[i] as nat, prime() as nat);
            assert(s - x[i] == y[i]);
        } else {
            vstd::arithmetic::div_mod::lemma_mod_sub_multiples_vanish(x[i] + y[i], prime());
            vstd::arithmetic::div_mod::lemma_small_mod(
                (x[i] + y[i] - prime()) as nat,
                prime() as nat,
            );
            assert(s == x[i] + y[i] - prime());
            vstd::arithmetic::div_mod::lemma_mod_sub_multiples_vanish(y[i], prime());
            vstd::arithmetic::div_mod::lemma_small_mod(y[i] as nat, prime() as nat);
            assert((s - x[i]) % prime() == (y[i] - prime()) % prime());
        }
    }
    assert(ssub(sadd(x, y), x) =~= y);
}

/// Subtracting a well-formed value from itself gives zero.
pub proof fn lemma_ssub_self(x: Seq<int>)
    requires
        ext_wf(x),
    ensures
        ssub(x, x) == szero(),
{
    assert(ssub(x, x) =~= szero());
}

/// Zero is the identity of coefficient-wise addition.
pub proof fn lemma_sadd_zero(x: Seq<int>)
    requires
        ext_wf(x),
    ensures
        sadd(szero(), x) == x,
        sadd(x, szero()) == x,
{
    assert(sadd(szero(), x) =~= x);
    assert(sadd(x, szero()) =~= x);
}

/// Coefficient-wise addition is commutative.
pub proof fn lemma_sadd_comm(a: Seq<int>, b: Seq<int>)
    ensures
        sadd(a, b) == sadd(b, a),
{
    assert(sadd(a, b) =~= sadd(b, a));
}

/// Coefficient-wise addition of well-formed values is associative.
pub proof fn lemma_sadd_assoc(a: Seq<int>, b: Seq<int>, c: Seq<int>)
    requires
        ext_wf(a),
        ext_wf(c),
    ensures
        sadd(sadd(a, b), c) == sadd(a, sadd(b, c)),
{
    assert forall|i: int| 0 <= i < 4 implies sadd(sadd(a, b), c)[i] == sadd(a, sadd(b, c))[i] by {
        vstd::arithmetic::div_mod::lemma_small_mod(a[i] as nat, prime() as nat);
        vstd::arithmetic::div_mod::lemma_small_mod(c[i] as nat, prime() as nat);
        vstd::arithmetic::div_mod::lemma_add_mod_noop(a[i] + b[i], c[i], prime());
        vstd::arithmetic::div_mod::lemma_add_mod_noop(a[i], b[i] + c[i], prime());
    }
    assert(sadd(sadd(a, b), c) =~= sadd(a, sadd(b, c)));
}

/// Two scalings of the same value add to the scaling by the sum.
pub proof fn lemma_scale_add(m1: int, m2: int, x: Seq<int>)
    ensures
        sadd(sscale(m1, x), sscale(m2, x)) == sscale(m1 + m2, x),
{
    assert forall|i: int| 0 <= i < 4 implies sadd(sscale(m1, x), sscale(m2, x))[i] == sscale(
        m1 + m2,
        x,
    )[i] by {
        vstd::arithmetic::div_mod::lemma_add_mod_noop(m1 * x[i], m2 * x[i], prime());
        assert((m1 + m2) * x[i] == m1 * x[i] + m2 * x[i]) by (nonlinear_arith);
    }
    assert(sadd(sscale(m1, x), sscale(m2, x)) =~= sscale(m1 + m2, x));
}

/// Negating a scaling is scaling by the negated scalar.
pub proof fn lemma_scale_neg(m: int, x: Seq<int>)
    ensures
        sneg(sscale(m, x)) == sscale(0 - m, x),
{
    assert forall|i: int| 0 <= i < 4 implies sneg(sscale(m, x))[i] == sscale(0 - m, x)[i] by {
        vstd::arithmetic::div_mod::lemma_sub_mod_noop(0, m * x[i], prime());
        assert((0 - m) * x[i] == 0 - m * x[i]) by (nonlinear_arith);
    }
    assert(sneg(sscale(m, x)) =~= sscale(0 - m, x));
}

/// Scaling by a multiple of the field order gives zero.
pub proof fn lemma_scale_multiple_zero(s: int, x: Seq<int>)
    requires
        s % prime() == 0,
    ensures
        sscale(s, x) == szero(),
{
    assert forall|i: int| 0 <= i < 4 implies sscale(s, x)[i] == 0 by {
        vstd::arithmetic::div_mod::lemma_mul_mod_noop_left(s, x[i], prime());
    }
    assert(sscale(s, x) =~= szero());
}

} // verus!
