//! Three-dimensional vectors over fixed-point scalars.
//!
//! [`Triple`] is the mathematical model: three unbounded integers, the raw
//! values of the components. Every operation of [`Vector3`] is stated as the
//! matching operation of the model, and asks only that its result fits.

use crate::laws::lemma_dot_symmetric;
use crate::laws::lemma_magnitude_zero;
use crate::scalar::fits;
use crate::scalar::wide_product;
use crate::scalar::lemma_dividend_bound;
use crate::scalar::lemma_trunc_div_shrinks;
use crate::scalar::lemma_wide_product;
use crate::scalar::absolute;
use crate::scalar::mul_fixed;
use crate::scalar::representable;
use crate::scalar::trunc_div;
use crate::scalar::wide_quotient;
use crate::scalar::Scalar;
use crate::scalar::UNIT;
use crate::sqrt::int_sqrt;
use crate::sqrt::is_int_sqrt;
use crate::sqrt::lemma_int_sqrt_exists;
use crate::sqrt::unit_share;
use crate::sqrt::unit_share_of;
use crate::sqrt::wide_sqrt;
use crate::text::decimal;
use crate::text::push_decimal;
use core::ops::Neg;
use vstd::prelude::*;

verus! {

/// Three integers: the raw components of a vector, free of machine limits.
pub struct Triple {
    /// Raw length along the x axis.
    pub x: int,
    /// Raw length along the y axis.
    pub y: int,
    /// Raw length along the z axis.
    pub z: int,
}

impl Triple {
    /// The zero vector.
    pub open spec fn zero() -> Triple {
        Triple { x: 0, y: 0, z: 0 }
    }

    /// Whether all three components fit the raw word of a scalar.
    pub open spec fn representable(self) -> bool {
        representable(self.x) && representable(self.y) && representable(self.z)
    }

    /// The vector of machine words that holds this triple, when it fits.
    pub open spec fn narrowed(self) -> Vector3
        recommends
            self.representable(),
    {
        Vector3 {
            x: Scalar { raw: self.x as i64 },
            y: Scalar { raw: self.y as i64 },
            z: Scalar { raw: self.z as i64 },
        }
    }

    /// Component-wise sum.
    pub open spec fn plus(self, other: Triple) -> Triple {
        Triple { x: self.x + other.x, y: self.y + other.y, z: self.z + other.z }
    }

    /// Component-wise difference.
    pub open spec fn minus(self, other: Triple) -> Triple {
        Triple { x: self.x - other.x, y: self.y - other.y, z: self.z - other.z }
    }

    /// Every component negated.
    pub open spec fn negated(self) -> Triple {
        Triple { x: -self.x, y: -self.y, z: -self.z }
    }

    /// Every component multiplied by the scalar whose raw value is `factor`.
    pub open spec fn scaled(self, factor: int) -> Triple {
        Triple {
            x: mul_fixed(self.x, factor),
            y: mul_fixed(self.y, factor),
            z: mul_fixed(self.z, factor),
        }
    }

    /// Every component multiplied by the whole number `count`.
    pub open spec fn multiplied(self, count: int) -> Triple {
        Triple { x: self.x * count, y: self.y * count, z: self.z * count }
    }

    /// This vector plus `other` scaled by the scalar whose raw value is
    /// `factor`.
    pub open spec fn plus_scaled(self, other: Triple, factor: int) -> Triple {
        self.plus(other.scaled(factor))
    }

    /// Component-wise product.
    pub open spec fn component_product(self, other: Triple) -> Triple {
        Triple {
            x: mul_fixed(self.x, other.x),
            y: mul_fixed(self.y, other.y),
            z: mul_fixed(self.z, other.z),
        }
    }

    /// Scalar product: the three products are summed exactly and the sum is
    /// rounded once.
    pub open spec fn dot(self, other: Triple) -> int {
        trunc_div(self.x * other.x + self.y * other.y + self.z * other.z, UNIT as int)
    }

    /// Right-handed vector product: each component is an exact difference of
    /// two products, rounded once.
    pub open spec fn cross(self, other: Triple) -> Triple {
        Triple {
            x: trunc_div(self.y * other.z - self.z * other.y, UNIT as int),
            y: trunc_div(self.z * other.x - self.x * other.z, UNIT as int),
            z: trunc_div(self.x * other.y - self.y * other.x, UNIT as int),
        }
    }

    /// Sum of the squares of the raw components.
    pub open spec fn norm_squared(self) -> int {
        self.x * self.x + self.y * self.y + self.z * self.z
    }

    /// Whether the length fits a scalar: the sum of the squares is less than
    /// the square of `2^63`.
    pub open spec fn magnitude_fits(self) -> bool {
        self.norm_squared() < 0x4000_0000_0000_0000_0000_0000_0000_0000
    }

    /// Raw value of the length: the square root of `norm_squared`, rounded
    /// down.
    pub open spec fn magnitude(self) -> int {
        int_sqrt(self.norm_squared())
    }

    /// The vector of length one that points the same way: every component
    /// is divided by the exact length and rounded once, toward zero. The
    /// zero vector is its own.
    pub open spec fn normalized(self) -> Triple {
        let n = self.norm_squared();
        if n > 0 {
            Triple { x: unit_part(self.x, n), y: unit_part(self.y, n), z: unit_part(self.z, n) }
        } else {
            self
        }
    }

    /// The text that describes the vector: its components, its length and
    /// its direction, each as a decimal number.
    pub open spec fn text(self) -> Seq<char> {
        let direction = self.normalized();
        "value: [x = "@ + signed_decimal(self.x)
            + ", y = "@ + signed_decimal(self.y)
            + ", z = "@ + signed_decimal(self.z)
            + "]; magnitude = "@ + signed_decimal(self.magnitude())
            + "; direction = [x = "@ + signed_decimal(direction.x)
            + ", y = "@ + signed_decimal(direction.y)
            + ", z = "@ + signed_decimal(direction.z)
            + "]"@
    }
}

/// `x * UNIT / sqrt(n)`, rounded toward zero, for a positive `n`.
pub open spec fn unit_part(x: int, n: int) -> int
    recommends
        n > 0,
{
    if x >= 0 {
        unit_share(x, n)
    } else {
        -unit_share(x, n)
    }
}

/// The decimal text of the scalar whose raw value is `raw`.
pub open spec fn signed_decimal(raw: int) -> Seq<char> {
    decimal(raw < 0, absolute(raw) as nat)
}

/// Appends the decimal text of a scalar.
fn push_scalar(out: &mut String, value: Scalar)
    ensures
        final(out)@ == old(out)@ + signed_decimal(value@),
{
    if value.raw < 0 {
        let size: i128 = -(value.raw as i128);
        push_decimal(out, true, size as u64);
    } else {
        push_decimal(out, false, value.raw as u64);
    }
}

/// A vector in space: position, velocity, direction and the like.
#[derive(Clone, Copy, Debug, PartialEq, Eq, Structural)]
pub struct Vector3 {
    /// Length along the x axis.
    pub x: Scalar,
    /// Length along the y axis.
    pub y: Scalar,
    /// Length along the z axis.
    pub z: Scalar,
}

impl View for Vector3 {
    type V = Triple;

    open spec fn view(&self) -> Triple {
        Triple { x: self.x@, y: self.y@, z: self.z@ }
    }
}

/// The squares of three machine words are not negative and their sum fits
/// the wide unsigned word; the length brackets that sum.
proof fn lemma_squares(v: Triple)
    requires
        v.representable(),
    ensures
        is_int_sqrt(v.norm_squared(), v.magnitude()),
        0 <= v.x * v.x <= 0x4000_0000_0000_0000_0000_0000_0000_0000,
        0 <= v.y * v.y <= 0x4000_0000_0000_0000_0000_0000_0000_0000,
        0 <= v.z * v.z <= 0x4000_0000_0000_0000_0000_0000_0000_0000,
{
    lemma_wide_product(v.x, v.x);
    lemma_wide_product(v.y, v.y);
    lemma_wide_product(v.z, v.z);
    assert(v.x * v.x >= 0) by (nonlinear_arith);
    assert(v.y * v.y >= 0) by (nonlinear_arith);
    assert(v.z * v.z >= 0) by (nonlinear_arith);
    lemma_int_sqrt_exists(v.norm_squared());
}

/// One component of the unit vector; `square` is the square of the
/// component and `n`, which is positive, the sum of all three squares.
fn unit_component(component: Scalar, square: u128, n: u128) -> (r: Scalar)
    requires
        square == component@ * component@,
        square <= n,
        n > 0,
    ensures
        r@ == unit_part(component@, n as int),
{
    let q: u64 = unit_share_of(square, n, Ghost(component@));
    if component.raw >= 0 {
        Scalar { raw: q as i64 }
    } else {
        Scalar { raw: -(q as i64) }
    }
}

impl Vector3 {
    /// The length of the vector as a bare count of steps, rounded down.
    /// Every length fits the unsigned word; it is zero for the zero vector
    /// and for no other.
    pub fn magnitude_in_steps(&self) -> (length: u64)
        ensures
            length == self@.magnitude(),
            length * length <= self@.norm_squared() < (length + 1) * (length + 1),
            length == 0 <==> self@ == Triple::zero(),
    {
        proof {
            lemma_squares(self@);
            lemma_magnitude_zero(self@);
        }
        let sx: i128 = (self.x.raw as i128) * (self.x.raw as i128);
        let sy: i128 = (self.y.raw as i128) * (self.y.raw as i128);
        let sz: i128 = (self.z.raw as i128) * (self.z.raw as i128);
        let total: u128 = (sx as u128) + (sy as u128) + (sz as u128);
        wide_sqrt(total)
    }

    /// Adds `vector`, scaled by `scalar`, to this vector; the sum must fit.
    pub fn add_scaled_vector(&mut self, vector: Vector3, scalar: Scalar)
        requires
            old(self)@.plus_scaled(vector@, scalar@).representable(),
        ensures
            final(self)@ == old(self)@.plus_scaled(vector@, scalar@),
    {
        self.x = accumulate(self.x, vector.x, scalar);
        self.y = accumulate(self.y, vector.y, scalar);
        self.z = accumulate(self.z, vector.z, scalar);
    }

    /// Whether the sum of this vector and `rhs` fits.
    pub fn fits_add(&self, rhs: Vector3) -> (ok: bool)
        ensures
            ok == self@.plus(rhs@).representable(),
    {
        self.x.fits_add(rhs.x) && self.y.fits_add(rhs.y) && self.z.fits_add(rhs.z)
    }

    /// Whether the difference of this vector and `rhs` fits.
    pub fn fits_sub(&self, rhs: Vector3) -> (ok: bool)
        ensures
            ok == self@.minus(rhs@).representable(),
    {
        self.x.fits_sub(rhs.x) && self.y.fits_sub(rhs.y) && self.z.fits_sub(rhs.z)
    }

    /// Whether this vector scaled by `scalar` fits.
    pub fn fits_scaled(&self, scalar: Scalar) -> (ok: bool)
        ensures
            ok == self@.scaled(scalar@).representable(),
    {
        self.x.fits_mul(scalar) && self.y.fits_mul(scalar) && self.z.fits_mul(scalar)
    }

    /// Whether this vector multiplied by the whole number `count` fits.
    pub fn fits_multiplied(&self, count: i64) -> (ok: bool)
        ensures
            ok == self@.multiplied(count as int).representable(),
    {
        proof {
            lemma_wide_product(self.x@, count as int);
            lemma_wide_product(self.y@, count as int);
            lemma_wide_product(self.z@, count as int);
        }
        fits((self.x.raw as i128) * (count as i128)) && fits(
            (self.y.raw as i128) * (count as i128),
        ) && fits((self.z.raw as i128) * (count as i128))
    }

    /// Whether this vector plus `vector` scaled by `scalar` fits.
    pub fn fits_add_scaled_vector(&self, vector: Vector3, scalar: Scalar) -> (ok: bool)
        ensures
            ok == self@.plus_scaled(vector@, scalar@).representable(),
    {
        fits((self.x.raw as i128) + wide_product(vector.x, scalar))
            && fits((self.y.raw as i128) + wide_product(vector.y, scalar))
            && fits((self.z.raw as i128) + wide_product(vector.z, scalar))
    }

    /// Whether the component-wise product of this vector and `other` fits.
    pub fn fits_component_product(&self, other: &Vector3) -> (ok: bool)
        ensures
            ok == self@.component_product(other@).representable(),
    {
        self.x.fits_mul(other.x) && self.y.fits_mul(other.y) && self.z.fits_mul(other.z)
    }

    /// Whether the vector product of this vector and `vector` fits.
    pub fn fits_vector_product(self, vector: Vector3) -> (ok: bool)
        ensures
            ok == self@.cross(vector@).representable(),
    {
        fits(wide_difference(self.y, vector.z, self.z, vector.y)) && fits(
            wide_difference(self.z, vector.x, self.x, vector.z),
        ) && fits(wide_difference(self.x, vector.y, self.y, vector.x))
    }

    /// Whether the scalar product of this vector and `vector` fits.
    pub fn fits_scalar_product(self, vector: Vector3) -> (ok: bool)
        ensures
            ok == representable(self@.dot(vector@)),
    {
        let ghost sum = self.x@ * vector.x@ + self.y@ * vector.y@ + self.z@ * vector.z@;
        proof {
            lemma_wide_product(self.x@, vector.x@);
            lemma_wide_product(self.y@, vector.y@);
            lemma_wide_product(self.z@, vector.z@);
            if representable(trunc_div(sum, UNIT as int)) {
                lemma_dividend_bound(sum);
            }
        }
        let px: i128 = (self.x.raw as i128) * (vector.x.raw as i128);
        let py: i128 = (self.y.raw as i128) * (vector.y.raw as i128);
        let pz: i128 = (self.z.raw as i128) * (vector.z.raw as i128);
        match px.checked_add(py) {
            None => false,
            Some(partial) => match partial.checked_add(pz) {
                None => false,
                Some(total) => total > i128::MIN && fits(wide_quotient(total, UNIT as i128)),
            },
        }
    }

    /// Whether the negative of this vector fits.
    pub fn fits_invert(&self) -> (ok: bool)
        ensures
            ok == self@.negated().representable(),
    {
        self.x.fits_neg() && self.y.fits_neg() && self.z.fits_neg()
    }

    /// Whether the length of this vector fits a scalar.
    pub fn fits_magnitude(&self) -> (ok: bool)
        ensures
            ok == self@.magnitude_fits(),
    {
        proof {
            lemma_squares(self@);
        }
        let sx: i128 = (self.x.raw as i128) * (self.x.raw as i128);
        let sy: i128 = (self.y.raw as i128) * (self.y.raw as i128);
        let sz: i128 = (self.z.raw as i128) * (self.z.raw as i128);
        let total: u128 = (sx as u128) + (sy as u128) + (sz as u128);
        total < 0x4000_0000_0000_0000_0000_0000_0000_0000
    }

    /// The component-wise product of this vector and `other`, which must
    /// fit.
    pub fn component_product(&self, other: &Vector3) -> (r: Vector3)
        requires
            self@.component_product(other@).representable(),
        ensures
            r@ == self@.component_product(other@),
    {
        Vector3 { x: self.x * other.x, y: self.y * other.y, z: self.z * other.z }
    }

    /// The right-handed vector product of this vector and `vector`, which
    /// must fit.
    pub fn vector_product(self, vector: Vector3) -> (r: Vector3)
        requires
            self@.cross(vector@).representable(),
        ensures
            r@ == self@.cross(vector@),
    {
        Vector3 {
            x: rounded_difference(self.y, vector.z, self.z, vector.y),
            y: rounded_difference(self.z, vector.x, self.x, vector.z),
            z: rounded_difference(self.x, vector.y, self.y, vector.x),
        }
    }

    /// The scalar product of this vector and `vector`, which must fit a
    /// scalar.
    pub fn scalar_product(self, vector: Vector3) -> (r: Scalar)
        requires
            representable(self@.dot(vector@)),
        ensures
            r@ == self@.dot(vector@),
            r@ == vector@.dot(self@),
    {
        proof {
            lemma_dot_symmetric(self@, vector@);
            lemma_wide_product(self.x@, vector.x@);
            lemma_wide_product(self.y@, vector.y@);
            lemma_wide_product(self.z@, vector.z@);
            lemma_dividend_bound(
                self.x@ * vector.x@ + self.y@ * vector.y@ + self.z@ * vector.z@,
            );
        }
        let px: i128 = (self.x.raw as i128) * (vector.x.raw as i128);
        let py: i128 = (self.y.raw as i128) * (vector.y.raw as i128);
        let pz: i128 = (self.z.raw as i128) * (vector.z.raw as i128);
        let q: i128 = wide_quotient(px + py + pz, UNIT as i128);
        Scalar { raw: q as i64 }
    }

    /// Negates every component; the negatives must fit.
    pub fn invert(&mut self)
        requires
            old(self)@.negated().representable(),
        ensures
            final(self)@ == old(self)@.negated(),
    {
        self.x = self.x.neg();
        self.y = self.y.neg();
        self.z = self.z.neg();
    }

    /// The length of the vector, rounded down to the nearest step,
    /// which must fit a scalar.
    pub fn magnitude(&self) -> (r: Scalar)
        requires
            self@.magnitude_fits(),
        ensures
            r@ == self@.magnitude(),
            0 <= r@,
            r@ * r@ <= self@.norm_squared() < (r@ + 1) * (r@ + 1),
            r@ == 0 <==> self@ == Triple::zero(),
    {
        let length: u64 = self.magnitude_in_steps();
        proof {
            lemma_squares(self@);
            assert(length < 0x8000_0000_0000_0000) by (nonlinear_arith)
                requires
                    length * length <= self@.norm_squared(),
                    self@.norm_squared() < 0x4000_0000_0000_0000_0000_0000_0000_0000,
            ;
        }
        Scalar { raw: length as i64 }
    }

    /// Describes the vector for a reader: its components, its length and its
    /// direction.
    pub fn to_string(&self) -> (text: String)
        ensures
            text@ == self@.text(),
    {
        let length: u64 = self.magnitude_in_steps();
        let direction: Vector3 = self.get_normalized();
        let mut out = String::new();
        out.append("value: [x = ");
        push_scalar(&mut out, self.x);
        out.append(", y = ");
        push_scalar(&mut out, self.y);
        out.append(", z = ");
        push_scalar(&mut out, self.z);
        out.append("]; magnitude = ");
        push_decimal(&mut out, false, length);
        out.append("; direction = [x = ");
        push_scalar(&mut out, direction.x);
        out.append(", y = ");
        push_scalar(&mut out, direction.y);
        out.append(", z = ");
        push_scalar(&mut out, direction.z);
        out.append("]");
        proof {
            lemma_squares(self@);
            assert(out@ =~= self@.text());
        }
        out
    }

    /// Scales the vector to unit length; a vector of length zero is left as
    /// it is.
    pub fn normalize(&mut self)
        ensures
            final(self)@ == old(self)@.normalized(),
    {
        let unit: Vector3 = self.get_normalized();
        *self = unit;
    }

    /// The vector scaled to unit length; the vector itself where its length
    /// is zero.
    pub fn get_normalized(self) -> (r: Vector3)
        ensures
            r@ == self@.normalized(),
    {
        proof {
            lemma_squares(self@);
        }
        let sx: i128 = (self.x.raw as i128) * (self.x.raw as i128);
        let sy: i128 = (self.y.raw as i128) * (self.y.raw as i128);
        let sz: i128 = (self.z.raw as i128) * (self.z.raw as i128);
        let total: u128 = (sx as u128) + (sy as u128) + (sz as u128);
        if total > 0 {
            Vector3 {
                x: unit_component(self.x, sx as u128, total),
                y: unit_component(self.y, sy as u128, total),
                z: unit_component(self.z, sz as u128, total),
            }
        } else {
            self
        }
    }
}

impl core::ops::Add<Vector3> for Vector3 {
    type Output = Vector3;

    /// Component-wise sum, which must fit.
    fn add(self, rhs: Vector3) -> (r: Vector3)
        ensures
            r@ == self@.plus(rhs@),
    {
        Vector3 { x: self.x + rhs.x, y: self.y + rhs.y, z: self.z + rhs.z }
    }
}

impl vstd::std_specs::ops::AddSpecImpl<Vector3> for Vector3 {
    open spec fn obeys_add_spec() -> bool {
        true
    }

    open spec fn add_req(self, rhs: Vector3) -> bool {
        self@.plus(rhs@).representable()
    }

    open spec fn add_spec(self, rhs: Vector3) -> Vector3 {
        self@.plus(rhs@).narrowed()
    }
}

impl core::ops::Sub<Vector3> for Vector3 {
    type Output = Vector3;

    /// Component-wise difference, which must fit.
    fn sub(self, rhs: Vector3) -> (r: Vector3)
        ensures
            r@ == self@.minus(rhs@),
    {
        Vector3 { x: self.x - rhs.x, y: self.y - rhs.y, z: self.z - rhs.z }
    }
}

impl vstd::std_specs::ops::SubSpecImpl<Vector3> for Vector3 {
    open spec fn obeys_sub_spec() -> bool {
        true
    }

    open spec fn sub_req(self, rhs: Vector3) -> bool {
        self@.minus(rhs@).representable()
    }

    open spec fn sub_spec(self, rhs: Vector3) -> Vector3 {
        self@.minus(rhs@).narrowed()
    }
}

impl core::ops::Mul<Scalar> for Vector3 {
    type Output = Vector3;

    /// Every component multiplied by a scalar; the products must fit.
    fn mul(self, rhs: Scalar) -> (r: Vector3)
        ensures
            r@ == self@.scaled(rhs@),
    {
        Vector3 { x: self.x * rhs, y: self.y * rhs, z: self.z * rhs }
    }
}

impl vstd::std_specs::ops::MulSpecImpl<Scalar> for Vector3 {
    open spec fn obeys_mul_spec() -> bool {
        true
    }

    open spec fn mul_req(self, rhs: Scalar) -> bool {
        self@.scaled(rhs@).representable()
    }

    open spec fn mul_spec(self, rhs: Scalar) -> Vector3 {
        self@.scaled(rhs@).narrowed()
    }
}

impl core::ops::Mul<i64> for Vector3 {
    type Output = Vector3;

    /// Every component multiplied by a whole number; the products must fit.
    fn mul(self, rhs: i64) -> (r: Vector3)
        ensures
            r@ == self@.multiplied(rhs as int),
    {
        Vector3 {
            x: Scalar { raw: self.x.raw * rhs },
            y: Scalar { raw: self.y.raw * rhs },
            z: Scalar { raw: self.z.raw * rhs },
        }
    }
}

impl vstd::std_specs::ops::MulSpecImpl<i64> for Vector3 {
    open spec fn obeys_mul_spec() -> bool {
        true
    }

    open spec fn mul_req(self, rhs: i64) -> bool {
        self@.multiplied(rhs as int).representable()
    }

    open spec fn mul_spec(self, rhs: i64) -> Vector3 {
        self@.multiplied(rhs as int).narrowed()
    }
}

impl core::ops::Mul<Vector3> for Vector3 {
    type Output = Scalar;

    /// The scalar product, which must fit a scalar.
    fn mul(self, rhs: Vector3) -> (r: Scalar)
        ensures
            r@ == self@.dot(rhs@),
    {
        self.scalar_product(rhs)
    }
}

impl vstd::std_specs::ops::MulSpecImpl<Vector3> for Vector3 {
    open spec fn obeys_mul_spec() -> bool {
        true
    }

    open spec fn mul_req(self, rhs: Vector3) -> bool {
        representable(self@.dot(rhs@))
    }

    open spec fn mul_spec(self, rhs: Vector3) -> Scalar {
        Scalar { raw: self@.dot(rhs@) as i64 }
    }
}

impl core::ops::Rem<Vector3> for Vector3 {
    type Output = Vector3;

    /// The vector product, which must fit.
    fn rem(self, rhs: Vector3) -> (r: Vector3)
        ensures
            r@ == self@.cross(rhs@),
    {
        self.vector_product(rhs)
    }
}

impl vstd::std_specs::ops::RemSpecImpl<Vector3> for Vector3 {
    open spec fn obeys_rem_spec() -> bool {
        true
    }

    open spec fn rem_req(self, rhs: Vector3) -> bool {
        self@.cross(rhs@).representable()
    }

    open spec fn rem_spec(self, rhs: Vector3) -> Vector3 {
        self@.cross(rhs@).narrowed()
    }
}

impl core::ops::AddAssign<Vector3> for Vector3 {
    /// Adds `rhs` to this vector; the sum must fit.
    fn add_assign(&mut self, rhs: Vector3)
        requires
            old(self)@.plus(rhs@).representable(),
        ensures
            final(self)@ == old(self)@.plus(rhs@),
    {
        self.x = self.x + rhs.x;
        self.y = self.y + rhs.y;
        self.z = self.z + rhs.z;
    }
}

impl core::ops::SubAssign<Vector3> for Vector3 {
    /// Subtracts `rhs` from this vector; the difference must fit.
    fn sub_assign(&mut self, rhs: Vector3)
        requires
            old(self)@.minus(rhs@).representable(),
        ensures
            final(self)@ == old(self)@.minus(rhs@),
    {
        self.x = self.x - rhs.x;
        self.y = self.y - rhs.y;
        self.z = self.z - rhs.z;
    }
}

impl core::ops::MulAssign<Scalar> for Vector3 {
    /// Multiplies every component by a scalar; the products must fit.
    fn mul_assign(&mut self, rhs: Scalar)
        requires
            old(self)@.scaled(rhs@).representable(),
        ensures
            final(self)@ == old(self)@.scaled(rhs@),
    {
        self.x = self.x * rhs;
        self.y = self.y * rhs;
        self.z = self.z * rhs;
    }
}

impl core::ops::MulAssign<i64> for Vector3 {
    /// Multiplies every component by a whole number; the products must fit.
    fn mul_assign(&mut self, rhs: i64)
        requires
            old(self)@.multiplied(rhs as int).representable(),
        ensures
            final(self)@ == old(self)@.multiplied(rhs as int),
    {
        self.x = Scalar { raw: self.x.raw * rhs };
        self.y = Scalar { raw: self.y.raw * rhs };
        self.z = Scalar { raw: self.z.raw * rhs };
    }
}

impl core::ops::RemAssign<Vector3> for Vector3 {
    /// Replaces this vector by its vector product with `rhs`, which must
    /// fit. All three components are computed from the vector as it was
    /// before the call.
    fn rem_assign(&mut self, rhs: Vector3)
        requires
            old(self)@.cross(rhs@).representable(),
        ensures
            final(self)@ == old(self)@.cross(rhs@),
    {
        let product: Vector3 = self.vector_product(rhs);
        *self = product;
    }
}

/// `base + term * factor`, the product rounded before the sum is taken.
fn accumulate(base: Scalar, term: Scalar, factor: Scalar) -> (r: Scalar)
    requires
        representable(base@ + mul_fixed(term@, factor@)),
    ensures
        r@ == base@ + mul_fixed(term@, factor@),
{
    let sum: i128 = (base.raw as i128) + wide_product(term, factor);
    Scalar { raw: sum as i64 }
}

/// `a * b - c * d` in the wide word, the difference taken exactly and
/// rounded once.
fn wide_difference(a: Scalar, b: Scalar, c: Scalar, d: Scalar) -> (r: i128)
    ensures
        r == trunc_div(a@ * b@ - c@ * d@, UNIT as int),
{
    proof {
        lemma_wide_product(a@, b@);
        lemma_wide_product(c@, d@);
    }
    let left: i128 = (a.raw as i128) * (b.raw as i128);
    let right: i128 = (c.raw as i128) * (d.raw as i128);
    wide_quotient(left - right, UNIT as i128)
}

/// `a * b - c * d`, the difference taken exactly and rounded once.
fn rounded_difference(a: Scalar, b: Scalar, c: Scalar, d: Scalar) -> (r: Scalar)
    requires
        representable(trunc_div(a@ * b@ - c@ * d@, UNIT as int)),
    ensures
        r@ == trunc_div(a@ * b@ - c@ * d@, UNIT as int),
{
    Scalar { raw: wide_difference(a, b, c, d) as i64 }
}

} // verus!
