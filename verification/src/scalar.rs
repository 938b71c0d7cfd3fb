//! Decimal fixed-point scalars.
//!
//! A [`Scalar`] holds a real number as a whole count of steps, of which
//! ten million million make one. Sums and differences are exact; products
//! and quotients are rounded toward zero to the nearest step. Every
//! operation states the exact integer it returns, and asks only that this
//! integer fits the machine word, which holds numbers up to some nine
//! hundred thousand.

use vstd::arithmetic::div_mod::lemma_fundamental_div_mod;
use vstd::arithmetic::div_mod::lemma_mod_bound;
use vstd::prelude::*;

verus! {

/// The raw count that stands for the number one: the thirteenth power of
/// ten.
pub const UNIT: i64 = 10_000_000_000_000;

/// Whether an integer fits the raw word of a [`Scalar`].
#[verifier::inline]
pub open spec fn representable(v: int) -> bool {
    i64::MIN <= v <= i64::MAX
}

/// Absolute value of an integer.
pub open spec fn absolute(v: int) -> int {
    if v >= 0 {
        v
    } else {
        -v
    }
}

/// Quotient of `n` by a positive `d`, rounded toward zero.
#[verifier::inline]
pub open spec fn toward_zero(n: int, d: int) -> int
    recommends
        d > 0,
{
    if n >= 0 {
        n / d
    } else {
        -((-n) / d)
    }
}

/// Quotient of `n` by a nonzero `d`, rounded toward zero.
#[verifier::inline]
pub open spec fn trunc_div(n: int, d: int) -> int
    recommends
        d != 0,
{
    if d > 0 {
        toward_zero(n, d)
    } else {
        toward_zero(-n, -d)
    }
}

/// Raw value of the product of two scalars given by their raw values.
#[verifier::inline]
pub open spec fn mul_fixed(a: int, b: int) -> int {
    trunc_div(a * b, UNIT as int)
}

/// Raw value of the quotient of two scalars given by their raw values.
#[verifier::inline]
pub open spec fn div_fixed(a: int, b: int) -> int
    recommends
        b != 0,
{
    trunc_div(a * UNIT, b)
}

/// The remainder left by `trunc_div` is smaller than the divisor and has the
/// sign of the dividend.
pub proof fn lemma_trunc_div_remainder(n: int, d: int)
    requires
        d != 0,
    ensures
        absolute(n - trunc_div(n, d) * d) < absolute(d),
        n >= 0 ==> n - trunc_div(n, d) * d >= 0,
        n <= 0 ==> n - trunc_div(n, d) * d <= 0,
{
    let m = if d > 0 { n } else { -n };
    let e = absolute(d);
    let k = if m >= 0 { m / e } else { (-m) / e };
    let a = absolute(m);
    lemma_fundamental_div_mod(a, e);
    lemma_mod_bound(a, e);
    assert(a == e * k + a % e);
    let q = trunc_div(n, d);
    assert(q == if m >= 0 { k } else { -k });
    assert(e * k == k * e) by (nonlinear_arith);
    assert((-k) * e == -(k * e)) by (nonlinear_arith);
    assert(k * (-e) == -(k * e)) by (nonlinear_arith);
    assert((-k) * (-e) == k * e) by (nonlinear_arith);
}

/// A quotient whose remainder is smaller than the divisor and has the sign of
/// the dividend is the one that `trunc_div` gives.
pub proof fn lemma_trunc_div_unique(n: int, d: int, q: int)
    requires
        d != 0,
        absolute(n - q * d) < absolute(d),
        n >= 0 ==> n - q * d >= 0,
        n <= 0 ==> n - q * d <= 0,
    ensures
        q == trunc_div(n, d),
{
    let t = trunc_div(n, d);
    lemma_trunc_div_remainder(n, d);
    let r = n - q * d;
    let s = n - t * d;
    assert(s - r == (q - t) * d) by (nonlinear_arith)
        requires
            r == n - q * d,
            s == n - t * d,
    ;
    assert(absolute(s - r) < absolute(d));
    assert(q - t == 0) by (nonlinear_arith)
        requires
            s - r == (q - t) * d,
            absolute(s - r) < absolute(d),
            d != 0,
    ;
}

/// Rounding toward zero commutes with negating the dividend.
pub proof fn lemma_trunc_div_negate(n: int, d: int)
    requires
        d != 0,
    ensures
        trunc_div(-n, d) == -trunc_div(n, d),
{
    let t = trunc_div(n, d);
    lemma_trunc_div_remainder(n, d);
    assert((-t) * d == -(t * d)) by (nonlinear_arith);
    lemma_trunc_div_unique(-n, d, -t);
}

/// A multiple of the divisor is divided exactly.
pub proof fn lemma_trunc_div_exact(k: int, d: int)
    requires
        d != 0,
    ensures
        trunc_div(k * d, d) == k,
{
    lemma_trunc_div_unique(k * d, d, k);
}

/// The quotient, multiplied back, is no larger in magnitude than the dividend.
pub proof fn lemma_trunc_div_shrinks(n: int, d: int)
    requires
        d != 0,
    ensures
        absolute(trunc_div(n, d)) * absolute(d) <= absolute(n),
        absolute(trunc_div(n, d)) <= absolute(n),
{
    let t = trunc_div(n, d);
    lemma_trunc_div_remainder(n, d);
    assert(absolute(t) * absolute(d) <= absolute(n)) by (nonlinear_arith)
        requires
            d != 0,
            absolute(n - t * d) < absolute(d),
            n >= 0 ==> n - t * d >= 0,
            n <= 0 ==> n - t * d <= 0,
    ;
    assert(absolute(t) <= absolute(t) * absolute(d)) by (nonlinear_arith)
        requires
            absolute(d) >= 1,
            absolute(t) >= 0,
    ;
}

/// A quotient rounded toward zero is not negative where dividend and
/// divisor have the same sign, and not positive where they have opposite
/// signs.
pub proof fn lemma_trunc_div_sign(n: int, d: int)
    requires
        d != 0,
    ensures
        (n >= 0 && d > 0) || (n <= 0 && d < 0) ==> trunc_div(n, d) >= 0,
        (n >= 0 && d < 0) || (n <= 0 && d > 0) ==> trunc_div(n, d) <= 0,
{
    let q = trunc_div(n, d);
    lemma_trunc_div_remainder(n, d);
    assert(((n >= 0 && d > 0) || (n <= 0 && d < 0) ==> q >= 0) && ((n >= 0 && d < 0) || (n <= 0
        && d > 0) ==> q <= 0)) by (nonlinear_arith)
        requires
            d != 0,
            absolute(n - q * d) < absolute(d),
            n >= 0 ==> n - q * d >= 0,
            n <= 0 ==> n - q * d <= 0,
    ;
}

/// A real number held as a whole count of steps.
///
/// The number that a scalar stands for is `raw / UNIT`; its view is `raw`
/// as a mathematical integer.
#[derive(Clone, Copy, Debug, PartialEq, Eq, Structural)]
pub struct Scalar {
    /// The count of steps.
    pub raw: i64,
}

impl View for Scalar {
    type V = int;

    open spec fn view(&self) -> int {
        self.raw as int
    }
}

/// The product of two machine words fits the wide word, with room to spare:
/// it lies between `-(2^126 - 2^63)` and `2^126`.
pub(crate) proof fn lemma_wide_product(a: int, b: int)
    requires
        representable(a),
        representable(b),
    ensures
        -0x3fff_ffff_ffff_ffff_8000_0000_0000_0000 <= a * b
            <= 0x4000_0000_0000_0000_0000_0000_0000_0000,
{
    assert(a * b <= 0x4000_0000_0000_0000_0000_0000_0000_0000) by (nonlinear_arith)
        requires
            -0x8000_0000_0000_0000 <= a <= 0x7fff_ffff_ffff_ffff,
            -0x8000_0000_0000_0000 <= b <= 0x7fff_ffff_ffff_ffff,
    ;
    if b >= 0 {
        assert(a * b >= -0x3fff_ffff_ffff_ffff_8000_0000_0000_0000) by (nonlinear_arith)
            requires
                -0x8000_0000_0000_0000 <= a,
                0 <= b <= 0x7fff_ffff_ffff_ffff,
        ;
    } else {
        assert(a * b >= -0x3fff_ffff_ffff_ffff_8000_0000_0000_0000) by (nonlinear_arith)
            requires
                a <= 0x7fff_ffff_ffff_ffff,
                -0x8000_0000_0000_0000 <= b < 0,
        ;
    }
}

/// A dividend whose quotient by `UNIT` fits the machine word is itself less
/// than `(2^63 + 1) * UNIT` in magnitude.
pub(crate) proof fn lemma_dividend_bound(n: int)
    requires
        representable(trunc_div(n, UNIT as int)),
    ensures
        -92_233_720_368_547_758_090_000_000_000_000 < n
            < 92_233_720_368_547_758_090_000_000_000_000,
{
    lemma_trunc_div_remainder(n, UNIT as int);
}

/// Divides two wide words, rounding toward zero.
pub(crate) fn wide_quotient(n: i128, d: i128) -> (q: i128)
    requires
        d != 0,
        n > i128::MIN,
        d > i128::MIN,
    ensures
        q == trunc_div(n as int, d as int),
{
    if d > 0 {
        n / d
    } else {
        (-n) / (-d)
    }
}

/// Whether a wide word fits the raw word of a scalar.
pub(crate) fn fits(value: i128) -> (ok: bool)
    ensures
        ok == representable(value as int),
{
    -0x8000_0000_0000_0000 <= value && value <= 0x7fff_ffff_ffff_ffff
}

/// `a * b` in the wide word, rounded toward zero to the nearest step.
pub(crate) fn wide_product(a: Scalar, b: Scalar) -> (r: i128)
    ensures
        r == mul_fixed(a@, b@),
        -0x4000_0000_0000_0000_0000_0000_0000_0000 <= r
            <= 0x4000_0000_0000_0000_0000_0000_0000_0000,
{
    proof {
        lemma_wide_product(a@, b@);
        lemma_trunc_div_shrinks(a@ * b@, UNIT as int);
    }
    let product: i128 = (a.raw as i128) * (b.raw as i128);
    wide_quotient(product, UNIT as i128)
}

impl Scalar {
    /// The number zero.
    pub fn zero() -> (r: Scalar)
        ensures
            r@ == 0,
    {
        Scalar { raw: 0 }
    }

    /// The number one.
    pub fn one() -> (r: Scalar)
        ensures
            r@ == UNIT,
    {
        Scalar { raw: UNIT }
    }

    /// The largest number a scalar can hold.
    pub fn max_value() -> (r: Scalar)
        ensures
            r@ == i64::MAX,
    {
        Scalar { raw: i64::MAX }
    }

    /// Whether the scalar that stands for the whole number `n` fits.
    pub fn fits_from_int(n: i64) -> (ok: bool)
        ensures
            ok == representable(n * UNIT),
    {
        proof {
            lemma_wide_product(n as int, UNIT as int);
        }
        fits((n as i128) * (UNIT as i128))
    }

    /// Whether the sum of this scalar and `rhs` fits.
    pub fn fits_add(self, rhs: Scalar) -> (ok: bool)
        ensures
            ok == representable(self@ + rhs@),
    {
        fits((self.raw as i128) + (rhs.raw as i128))
    }

    /// Whether the difference of this scalar and `rhs` fits.
    pub fn fits_sub(self, rhs: Scalar) -> (ok: bool)
        ensures
            ok == representable(self@ - rhs@),
    {
        fits((self.raw as i128) - (rhs.raw as i128))
    }

    /// Whether the negative of this scalar fits.
    pub fn fits_neg(self) -> (ok: bool)
        ensures
            ok == representable(-self@),
    {
        fits(-(self.raw as i128))
    }

    /// Whether the product of this scalar and `rhs` fits.
    pub fn fits_mul(self, rhs: Scalar) -> (ok: bool)
        ensures
            ok == representable(mul_fixed(self@, rhs@)),
    {
        fits(wide_product(self, rhs))
    }

    /// Whether this scalar can be divided by `rhs`: `rhs` is not zero and
    /// the quotient fits.
    pub fn fits_div(self, rhs: Scalar) -> (ok: bool)
        ensures
            ok == (rhs@ != 0 && representable(div_fixed(self@, rhs@))),
    {
        if rhs.raw == 0 {
            return false;
        }
        proof {
            lemma_wide_product(self@, UNIT as int);
        }
        let scaled: i128 = (self.raw as i128) * (UNIT as i128);
        fits(wide_quotient(scaled, rhs.raw as i128))
    }

    /// The scalar that stands for a whole number, which must fit a scalar.
    pub fn from_int(n: i64) -> (r: Scalar)
        requires
            representable(n * UNIT),
        ensures
            r@ == n * UNIT,
    {
        Scalar { raw: n * UNIT }
    }
}

impl core::ops::Add for Scalar {
    type Output = Scalar;

    /// Exact sum, which must fit a scalar.
    fn add(self, rhs: Scalar) -> (r: Scalar)
        ensures
            r@ == self@ + rhs@,
    {
        Scalar { raw: self.raw + rhs.raw }
    }
}

impl vstd::std_specs::ops::AddSpecImpl for Scalar {
    open spec fn obeys_add_spec() -> bool {
        true
    }

    open spec fn add_req(self, rhs: Scalar) -> bool {
        representable(self@ + rhs@)
    }

    open spec fn add_spec(self, rhs: Scalar) -> Scalar {
        Scalar { raw: (self@ + rhs@) as i64 }
    }
}

impl core::ops::Sub for Scalar {
    type Output = Scalar;

    /// Exact difference, which must fit a scalar.
    fn sub(self, rhs: Scalar) -> (r: Scalar)
        ensures
            r@ == self@ - rhs@,
    {
        Scalar { raw: self.raw - rhs.raw }
    }
}

impl vstd::std_specs::ops::SubSpecImpl for Scalar {
    open spec fn obeys_sub_spec() -> bool {
        true
    }

    open spec fn sub_req(self, rhs: Scalar) -> bool {
        representable(self@ - rhs@)
    }

    open spec fn sub_spec(self, rhs: Scalar) -> Scalar {
        Scalar { raw: (self@ - rhs@) as i64 }
    }
}

impl core::ops::Neg for Scalar {
    type Output = Scalar;

    /// Exact negation, which must fit a scalar.
    fn neg(self) -> (r: Scalar)
        ensures
            r@ == -self@,
    {
        Scalar { raw: -self.raw }
    }
}

impl vstd::std_specs::ops::NegSpecImpl for Scalar {
    open spec fn obeys_neg_spec() -> bool {
        true
    }

    open spec fn neg_req(self) -> bool {
        representable(-self@)
    }

    open spec fn neg_spec(self) -> Scalar {
        Scalar { raw: (-self@) as i64 }
    }
}

impl core::ops::Mul for Scalar {
    type Output = Scalar;

    /// Product, rounded toward zero to the nearest step, which must fit a
    /// scalar.
    fn mul(self, rhs: Scalar) -> (r: Scalar)
        ensures
            r@ == mul_fixed(self@, rhs@),
    {
        proof {
            lemma_wide_product(self@, rhs@);
        }
        let product: i128 = (self.raw as i128) * (rhs.raw as i128);
        let q: i128 = wide_quotient(product, UNIT as i128);
        Scalar { raw: q as i64 }
    }
}

impl vstd::std_specs::ops::MulSpecImpl for Scalar {
    open spec fn obeys_mul_spec() -> bool {
        true
    }

    open spec fn mul_req(self, rhs: Scalar) -> bool {
        representable(mul_fixed(self@, rhs@))
    }

    open spec fn mul_spec(self, rhs: Scalar) -> Scalar {
        Scalar { raw: mul_fixed(self@, rhs@) as i64 }
    }
}

impl core::ops::Div for Scalar {
    type Output = Scalar;

    /// Quotient by a scalar that is not zero, rounded toward zero to the
    /// nearest step, which must fit a scalar.
    fn div(self, rhs: Scalar) -> (r: Scalar)
        ensures
            r@ == div_fixed(self@, rhs@),
    {
        let scaled: i128 = (self.raw as i128) * (UNIT as i128);
        let q: i128 = wide_quotient(scaled, rhs.raw as i128);
        Scalar { raw: q as i64 }
    }
}

impl vstd::std_specs::ops::DivSpecImpl for Scalar {
    open spec fn obeys_div_spec() -> bool {
        true
    }

    open spec fn div_req(self, rhs: Scalar) -> bool {
        rhs@ != 0 && representable(div_fixed(self@, rhs@))
    }

    open spec fn div_spec(self, rhs: Scalar) -> Scalar {
        Scalar { raw: div_fixed(self@, rhs@) as i64 }
    }
}

} // verus!
