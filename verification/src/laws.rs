//! Laws of the vector algebra and of the mass of a particle.
//!
//! Each law is stated over the mathematical model, in which the contracts of
//! the executable operations are written, and so holds of every result that
//! those operations return.

use crate::particle::Particle;
use crate::scalar::Scalar;
use crate::scalar::lemma_trunc_div_exact;
use crate::scalar::lemma_trunc_div_negate;
use crate::scalar::lemma_trunc_div_remainder;
use crate::scalar::lemma_trunc_div_shrinks;
use crate::scalar::lemma_trunc_div_sign;
use crate::scalar::absolute;
use crate::scalar::representable;
use crate::scalar::trunc_div;
use crate::scalar::UNIT;
use crate::sqrt::is_int_sqrt;
use crate::sqrt::lemma_int_sqrt_exists;
use crate::sqrt::is_unit_share;
use crate::sqrt::lemma_int_sqrt_is;
use crate::sqrt::lemma_unit_share_exists;
use crate::sqrt::lemma_unit_share_is;
use crate::sqrt::unit_share;
use crate::vector::Triple;
use vstd::prelude::*;

verus! {

/// Addition of vectors is commutative.
pub proof fn lemma_plus_commutative(a: Triple, b: Triple)
    ensures
        a.plus(b) == b.plus(a),
{
}

/// Addition of vectors is associative.
pub proof fn lemma_plus_associative(a: Triple, b: Triple, c: Triple)
    ensures
        a.plus(b).plus(c) == a.plus(b.plus(c)),
{
}

/// A vector plus itself scaled by minus one is the zero vector, whether the
/// factor is the scalar minus one or the whole number minus one.
pub proof fn lemma_additive_inverse(v: Triple)
    ensures
        v.plus(v.scaled(-UNIT)) == Triple::zero(),
        v.plus(v.multiplied(-1)) == Triple::zero(),
{
    lemma_trunc_div_exact(-v.x, UNIT as int);
    lemma_trunc_div_exact(-v.y, UNIT as int);
    lemma_trunc_div_exact(-v.z, UNIT as int);
    assert(v.x * (-UNIT) == (-v.x) * UNIT) by (nonlinear_arith);
    assert(v.y * (-UNIT) == (-v.y) * UNIT) by (nonlinear_arith);
    assert(v.z * (-UNIT) == (-v.z) * UNIT) by (nonlinear_arith);
}

/// Scaling by a whole number is scaling by the scalar that stands for it.
pub proof fn lemma_whole_scaling(v: Triple, count: int)
    ensures
        v.scaled(count * UNIT) == v.multiplied(count),
{
    lemma_trunc_div_exact(v.x * count, UNIT as int);
    lemma_trunc_div_exact(v.y * count, UNIT as int);
    lemma_trunc_div_exact(v.z * count, UNIT as int);
    assert(v.x * (count * UNIT) == (v.x * count) * UNIT) by (nonlinear_arith);
    assert(v.y * (count * UNIT) == (v.y * count) * UNIT) by (nonlinear_arith);
    assert(v.z * (count * UNIT) == (v.z * count) * UNIT) by (nonlinear_arith);
}

/// The scalar product does not depend on the order of its operands.
pub proof fn lemma_dot_symmetric(a: Triple, b: Triple)
    ensures
        a.dot(b) == b.dot(a),
{
    assert(a.x * b.x == b.x * a.x) by (nonlinear_arith);
    assert(a.y * b.y == b.y * a.y) by (nonlinear_arith);
    assert(a.z * b.z == b.z * a.z) by (nonlinear_arith);
}

/// Swapping the operands of the vector product negates it.
pub proof fn lemma_cross_anticommutative(a: Triple, b: Triple)
    ensures
        a.cross(b) == b.cross(a).negated(),
{
    lemma_trunc_div_negate(b.y * a.z - b.z * a.y, UNIT as int);
    lemma_trunc_div_negate(b.z * a.x - b.x * a.z, UNIT as int);
    lemma_trunc_div_negate(b.x * a.y - b.y * a.x, UNIT as int);
    assert(a.y * b.z - a.z * b.y == -(b.y * a.z - b.z * a.y)) by (nonlinear_arith);
    assert(a.z * b.x - a.x * b.z == -(b.z * a.x - b.x * a.z)) by (nonlinear_arith);
    assert(a.x * b.y - a.y * b.x == -(b.x * a.y - b.y * a.x)) by (nonlinear_arith);
}

/// `|x * r| <= |x| * bound` where `|r| <= bound`.
proof fn lemma_product_bound(x: int, r: int, bound: int)
    requires
        absolute(r) <= bound,
    ensures
        absolute(x * r) <= absolute(x) * bound,
{
    assert(absolute(x * r) <= absolute(x) * bound) by (nonlinear_arith)
        requires
            absolute(r) <= bound,
    ;
}

/// The scalar product of `w` with the rounded quotients of a triple that is
/// exactly orthogonal to `w` is small: times `UNIT`, it is at most the sum of
/// the magnitudes of the components of `w`.
proof fn lemma_rounded_orthogonal(w: Triple, exact: Triple)
    requires
        w.x * exact.x + w.y * exact.y + w.z * exact.z == 0,
    ensures
        ({
            let rounded = Triple {
                x: trunc_div(exact.x, UNIT as int),
                y: trunc_div(exact.y, UNIT as int),
                z: trunc_div(exact.z, UNIT as int),
            };
            absolute(w.dot(rounded)) * UNIT <= absolute(w.x) + absolute(w.y)
                + absolute(w.z)
        }),
{
    let u = UNIT as int;
    let cx = trunc_div(exact.x, u);
    let cy = trunc_div(exact.y, u);
    let cz = trunc_div(exact.z, u);
    lemma_trunc_div_remainder(exact.x, u);
    lemma_trunc_div_remainder(exact.y, u);
    lemma_trunc_div_remainder(exact.z, u);
    let rx = exact.x - cx * u;
    let ry = exact.y - cy * u;
    let rz = exact.z - cz * u;
    let sum = w.x * cx + w.y * cy + w.z * cz;
    let rest = w.x * rx + w.y * ry + w.z * rz;
    assert((w.x * cx) * u == w.x * exact.x - w.x * rx) by (nonlinear_arith)
        requires
            rx == exact.x - cx * u,
    ;
    assert((w.y * cy) * u == w.y * exact.y - w.y * ry) by (nonlinear_arith)
        requires
            ry == exact.y - cy * u,
    ;
    assert((w.z * cz) * u == w.z * exact.z - w.z * rz) by (nonlinear_arith)
        requires
            rz == exact.z - cz * u,
    ;
    assert(sum * u == (w.x * cx) * u + (w.y * cy) * u + (w.z * cz) * u) by (nonlinear_arith)
        requires
            sum == w.x * cx + w.y * cy + w.z * cz,
    ;
    assert(sum * u == -rest);
    lemma_product_bound(w.x, rx, u - 1);
    lemma_product_bound(w.y, ry, u - 1);
    lemma_product_bound(w.z, rz, u - 1);
    let total = absolute(w.x) + absolute(w.y) + absolute(w.z);
    assert(absolute(rest) <= total * (u - 1)) by (nonlinear_arith)
        requires
            rest == w.x * rx + w.y * ry + w.z * rz,
            absolute(w.x * rx) <= absolute(w.x) * (u - 1),
            absolute(w.y * ry) <= absolute(w.y) * (u - 1),
            absolute(w.z * rz) <= absolute(w.z) * (u - 1),
            total == absolute(w.x) + absolute(w.y) + absolute(w.z),
    ;
    assert(absolute(sum) <= total) by (nonlinear_arith)
        requires
            sum * u == -rest,
            absolute(rest) <= total * (u - 1),
            u == 10_000_000_000_000,
            total >= 0,
    ;
    lemma_trunc_div_shrinks(sum, u);
}

/// `p * (m - n) == p * m - p * n`.
proof fn lemma_distribute(p: int, m: int, n: int)
    ensures
        p * (m - n) == p * m - p * n,
{
    assert(p * (m - n) == p * m - p * n) by (nonlinear_arith);
}

/// `p * (q * r) == q * (p * r)` and `p * (q * r) == r * (q * p)`.
proof fn lemma_rotate(p: int, q: int, r: int)
    ensures
        p * (q * r) == q * (p * r),
        p * (q * r) == r * (q * p),
{
    assert(p * (q * r) == q * (p * r)) by (nonlinear_arith);
    assert(p * (q * r) == r * (q * p)) by (nonlinear_arith);
}

/// The vector product is orthogonal to both of its operands, up to rounding:
/// its scalar product with either operand is at most one step for every
/// whole unit in the sum of the magnitudes of that operand's components.
pub proof fn lemma_cross_orthogonal(a: Triple, b: Triple)
    ensures
        absolute(a.dot(a.cross(b))) * UNIT <= absolute(a.x) + absolute(a.y) + absolute(a.z),
        absolute(b.dot(a.cross(b))) * UNIT <= absolute(b.x) + absolute(b.y) + absolute(b.z),
{
    let exact = Triple {
        x: a.y * b.z - a.z * b.y,
        y: a.z * b.x - a.x * b.z,
        z: a.x * b.y - a.y * b.x,
    };
    // Along `a`, the six products cancel in pairs.
    lemma_distribute(a.x, a.y * b.z, a.z * b.y);
    lemma_distribute(a.y, a.z * b.x, a.x * b.z);
    lemma_distribute(a.z, a.x * b.y, a.y * b.x);
    lemma_rotate(a.x, a.y, b.z);
    lemma_rotate(a.x, a.z, b.y);
    lemma_rotate(a.y, a.z, b.x);
    assert(a.x * exact.x + a.y * exact.y + a.z * exact.z == 0);
    // Along `b`, likewise.
    lemma_distribute(b.x, a.y * b.z, a.z * b.y);
    lemma_distribute(b.y, a.z * b.x, a.x * b.z);
    lemma_distribute(b.z, a.x * b.y, a.y * b.x);
    lemma_rotate(b.x, a.y, b.z);
    lemma_rotate(b.x, a.z, b.y);
    lemma_rotate(b.y, a.x, b.z);
    assert(b.x * exact.x + b.y * exact.y + b.z * exact.z == 0);
    lemma_rounded_orthogonal(a, exact);
    lemma_rounded_orthogonal(b, exact);
}

/// The length of a vector is never negative, its square is at most the sum
/// of the squares of the components, and the square of the next integer is
/// more than that sum.
pub proof fn lemma_magnitude_bounds(v: Triple)
    ensures
        v.magnitude() >= 0,
        is_int_sqrt(v.norm_squared(), v.magnitude()),
{
    assert(v.x * v.x >= 0) by (nonlinear_arith);
    assert(v.y * v.y >= 0) by (nonlinear_arith);
    assert(v.z * v.z >= 0) by (nonlinear_arith);
    lemma_int_sqrt_exists(v.norm_squared());
}

/// The length of a vector fits a scalar exactly when the sum of the squares
/// of its components is less than the square of `2^63`.
pub proof fn lemma_magnitude_fits(v: Triple)
    ensures
        v.magnitude_fits() <==> representable(v.magnitude()),
{
    lemma_magnitude_bounds(v);
    let m = v.magnitude();
    let n = v.norm_squared();
    if m <= 0x7fff_ffff_ffff_ffff {
        assert((m + 1) * (m + 1) <= 0x4000_0000_0000_0000_0000_0000_0000_0000)
            by (nonlinear_arith)
            requires
                0 <= m <= 0x7fff_ffff_ffff_ffff,
        ;
    } else {
        assert(m * m >= 0x4000_0000_0000_0000_0000_0000_0000_0000) by (nonlinear_arith)
            requires
                m >= 0x8000_0000_0000_0000,
        ;
    }
}

/// The length of a vector is zero exactly when the vector is the zero vector.
pub proof fn lemma_magnitude_zero(v: Triple)
    ensures
        v.magnitude() == 0 <==> v == Triple::zero(),
{
    lemma_magnitude_bounds(v);
    if v == Triple::zero() {
        assert(v.x * v.x + v.y * v.y + v.z * v.z == 0) by (nonlinear_arith)
            requires
                v.x == 0,
                v.y == 0,
                v.z == 0,
        ;
        lemma_int_sqrt_is(0, 0);
    }
    if v.magnitude() == 0 {
        let m = v.magnitude();
        assert((m + 1) * (m + 1) == 1) by (nonlinear_arith)
            requires
                m == 0,
        ;
        assert(v.x == 0 && v.y == 0 && v.z == 0) by (nonlinear_arith)
            requires
                v.x * v.x + v.y * v.y + v.z * v.z < 1,
        ;
    }
}

/// `x * x == |x| * |x|`.
proof fn lemma_square_of_absolute(x: int)
    ensures
        x * x == absolute(x) * absolute(x),
        x * x >= 0,
{
    assert(x * x == absolute(x) * absolute(x) && x * x >= 0) by (nonlinear_arith);
}

/// Normalizing a vector whose length is exactly one returns the vector
/// itself.
pub proof fn lemma_normalize_unit(v: Triple)
    requires
        v.norm_squared() == UNIT * UNIT,
    ensures
        v.normalized() == v,
{
    lemma_share_of_exact_unit(v.x);
    lemma_share_of_exact_unit(v.y);
    lemma_share_of_exact_unit(v.z);
}

/// Of a length of exactly one, a component's share is its magnitude.
proof fn lemma_share_of_exact_unit(x: int)
    ensures
        unit_share(x, UNIT * UNIT) == absolute(x),
{
    let a = absolute(x);
    let n = UNIT * UNIT;
    lemma_square_of_absolute(x);
    assert((a * a) * n < ((a + 1) * (a + 1)) * n) by (nonlinear_arith)
        requires
            a >= 0,
            n == 100_000_000_000_000_000_000_000_000,
    ;
    assert((x * x) * (UNIT * UNIT) == (a * a) * n);
    assert(is_unit_share(x, n, a));
    lemma_unit_share_is(x, n, a);
}

/// Normalizing the zero vector returns the zero vector.
pub proof fn lemma_normalize_zero()
    ensures
        Triple::zero().normalized() == Triple::zero(),
{
    let v = Triple::zero();
    assert(v.x * v.x + v.y * v.y + v.z * v.z == 0) by (nonlinear_arith)
        requires
            v.x == 0,
            v.y == 0,
            v.z == 0,
    ;
}

/// A vector is the zero vector exactly when the sum of the squares of its
/// components is zero; otherwise that sum is positive.
pub proof fn lemma_norm_squared_zero(v: Triple)
    ensures
        v.norm_squared() >= 0,
        v.norm_squared() == 0 <==> v == Triple::zero(),
{
    assert(v.x * v.x + v.y * v.y + v.z * v.z >= 0) by (nonlinear_arith);
    if v.norm_squared() == 0 {
        assert(v.x == 0 && v.y == 0 && v.z == 0) by (nonlinear_arith)
            requires
                v.x * v.x + v.y * v.y + v.z * v.z == 0,
        ;
    } else {
        if v == Triple::zero() {
            assert(v.x * v.x + v.y * v.y + v.z * v.z == 0) by (nonlinear_arith)
                requires
                    v.x == 0,
                    v.y == 0,
                    v.z == 0,
            ;
        }
    }
}

/// Every component of a normalized vector has the sign of the component it
/// comes from, or is zero, and its magnitude is that component's exact
/// share in the length, rounded down.
pub proof fn lemma_normalized_components(v: Triple)
    requires
        v != Triple::zero(),
    ensures
        v.norm_squared() > 0,
        is_unit_share(v.x, v.norm_squared(), absolute(v.normalized().x)),
        is_unit_share(v.y, v.norm_squared(), absolute(v.normalized().y)),
        is_unit_share(v.z, v.norm_squared(), absolute(v.normalized().z)),
        v.x >= 0 ==> v.normalized().x >= 0,
        v.x <= 0 ==> v.normalized().x <= 0,
        v.y >= 0 ==> v.normalized().y >= 0,
        v.y <= 0 ==> v.normalized().y <= 0,
        v.z >= 0 ==> v.normalized().z >= 0,
        v.z <= 0 ==> v.normalized().z <= 0,
{
    lemma_norm_squared_zero(v);
    let n = v.norm_squared();
    lemma_unit_share_exists(v.x, n);
    lemma_unit_share_exists(v.y, n);
    lemma_unit_share_exists(v.z, n);
    lemma_share_of_zero(n);
}

/// The share of a component that is zero is zero.
proof fn lemma_share_of_zero(n: int)
    requires
        n > 0,
    ensures
        unit_share(0, n) == 0,
{
    assert((0 * 0) * n == 0 && (0 * 0) * (UNIT * UNIT) == 0 && ((0 + 1) * (0 + 1)) * n == n)
        by (nonlinear_arith);
    assert(is_unit_share(0, n, 0));
    lemma_unit_share_is(0, n, 0);
}

/// A share is at most one: `q <= UNIT` where `q` is the share of a
/// component whose square is at most `n`.
proof fn lemma_share_at_most_unit(x: int, n: int, q: int)
    requires
        n > 0,
        x * x <= n,
        is_unit_share(x, n, q),
    ensures
        q <= UNIT,
{
    lemma_square_of_absolute(x);
    assert(q <= UNIT) by (nonlinear_arith)
        requires
            0 <= q,
            n > 0,
            0 <= x * x <= n,
            (q * q) * n <= (x * x) * (UNIT * UNIT),
            UNIT == 10_000_000_000_000,
    ;
}

/// Normalizing a vector that is not zero gives a vector of length one, up to
/// rounding: the sum of the squares of its components is at most one, and
/// its length, rounded down, is at most one and at least one less four
/// steps.
pub proof fn lemma_normalized_length(v: Triple)
    requires
        v != Triple::zero(),
    ensures
        v.normalized().norm_squared() <= UNIT * UNIT,
        v.normalized().norm_squared() >= UNIT * UNIT - 6 * UNIT - 2,
        UNIT - 4 <= v.normalized().magnitude() <= UNIT,
{
    let u = UNIT as int;
    let uu = u * u;
    let n = v.norm_squared();
    let w = v.normalized();
    lemma_normalized_components(v);
    let qx = absolute(w.x);
    let qy = absolute(w.y);
    let qz = absolute(w.z);
    lemma_square_of_absolute(w.x);
    lemma_square_of_absolute(w.y);
    lemma_square_of_absolute(w.z);
    lemma_square_of_absolute(v.x);
    lemma_square_of_absolute(v.y);
    lemma_square_of_absolute(v.z);
    let s = w.norm_squared();
    assert(s == qx * qx + qy * qy + qz * qz);
    // At most one.
    assert(s * n == (qx * qx) * n + (qy * qy) * n + (qz * qz) * n) by (nonlinear_arith)
        requires
            s == qx * qx + qy * qy + qz * qz,
    ;
    assert(n * uu == (v.x * v.x) * uu + (v.y * v.y) * uu + (v.z * v.z) * uu)
        by (nonlinear_arith)
        requires
            n == v.x * v.x + v.y * v.y + v.z * v.z,
    ;
    assert(s * n <= n * uu);
    assert(s <= uu) by (nonlinear_arith)
        requires
            s * n <= n * uu,
            n > 0,
    ;
    // At least one less a little.
    lemma_share_at_most_unit(v.x, n, qx);
    lemma_share_at_most_unit(v.y, n, qy);
    lemma_share_at_most_unit(v.z, n, qz);
    let t = (qx + 1) * (qx + 1) + (qy + 1) * (qy + 1) + (qz + 1) * (qz + 1);
    assert(t * n == ((qx + 1) * (qx + 1)) * n + ((qy + 1) * (qy + 1)) * n + ((qz + 1) * (qz
        + 1)) * n) by (nonlinear_arith)
        requires
            t == (qx + 1) * (qx + 1) + (qy + 1) * (qy + 1) + (qz + 1) * (qz + 1),
    ;
    assert(n * uu < t * n);
    assert(uu < t) by (nonlinear_arith)
        requires
            n * uu < t * n,
            n > 0,
    ;
    assert(t == s + 2 * (qx + qy + qz) + 3) by (nonlinear_arith)
        requires
            t == (qx + 1) * (qx + 1) + (qy + 1) * (qy + 1) + (qz + 1) * (qz + 1),
            s == qx * qx + qy * qy + qz * qz,
    ;
    assert(s >= uu - 6 * u - 2);
    // The length.
    lemma_magnitude_bounds(w);
    let m = w.magnitude();
    assert(m <= u) by (nonlinear_arith)
        requires
            0 <= m,
            m * m <= s,
            s <= uu,
            uu == u * u,
            u == 10_000_000_000_000,
    ;
    assert(m >= u - 4) by (nonlinear_arith)
        requires
            s >= uu - 6 * u - 2,
            s < (m + 1) * (m + 1),
            0 <= m,
            uu == u * u,
            u == 10_000_000_000_000,
    ;
}

/// Of a length that is nearly one, a component's share is the component's
/// magnitude or up to four steps more.
proof fn lemma_share_of_near_unit(x: int, s: int)
    requires
        UNIT * UNIT - 6 * UNIT - 2 <= s <= UNIT * UNIT,
        absolute(x) <= UNIT,
    ensures
        absolute(x) <= unit_share(x, s) <= absolute(x) + 4,
{
    let u = UNIT as int;
    let a = absolute(x);
    let q = unit_share(x, s);
    lemma_unit_share_exists(x, s);
    lemma_square_of_absolute(x);
    if q < a {
        assert(((q + 1) * (q + 1)) * s <= (a * a) * (u * u)) by (nonlinear_arith)
            requires
                0 <= q + 1 <= a,
                0 < s <= u * u,
        ;
    }
    if q >= a + 5 {
        assert((q * q) * s > (a * a) * (u * u)) by (nonlinear_arith)
            requires
                q >= a + 5,
                0 <= a <= u,
                s >= (u - 4) * (u - 4),
                u == 10_000_000_000_000,
        ;
    }
}

/// Normalizing twice is normalizing once, up to rounding: the second
/// normalization moves no component by more than four steps.
pub proof fn lemma_normalize_twice(v: Triple)
    requires
        v != Triple::zero(),
    ensures
        absolute(v.normalized().normalized().x - v.normalized().x) <= 4,
        absolute(v.normalized().normalized().y - v.normalized().y) <= 4,
        absolute(v.normalized().normalized().z - v.normalized().z) <= 4,
{
    let w = v.normalized();
    let n = v.norm_squared();
    lemma_normalized_components(v);
    lemma_normalized_length(v);
    lemma_square_of_absolute(v.x);
    lemma_square_of_absolute(v.y);
    lemma_square_of_absolute(v.z);
    lemma_share_at_most_unit(v.x, n, absolute(w.x));
    lemma_share_at_most_unit(v.y, n, absolute(w.y));
    lemma_share_at_most_unit(v.z, n, absolute(w.z));
    let s = w.norm_squared();
    lemma_share_of_near_unit(w.x, s);
    lemma_share_of_near_unit(w.y, s);
    lemma_share_of_near_unit(w.z, s);
}

/// A mass that is set is the mass that is read: with the inverse mass held
/// as one over the mass, the mass fits and is the one that was set, for
/// every mass that is not zero.
pub proof fn lemma_mass_round_trip(particle: Particle, mass: Scalar)
    requires
        mass@ != 0,
    ensures
        ({
            let set = Particle {
                inverse_mass_numerator: Scalar { raw: UNIT },
                inverse_mass_denominator: mass,
                ..particle
            };
            set.mass_fits() && set.mass() == mass@
        }),
{
    lemma_trunc_div_exact(mass@, UNIT as int);
}

/// An inverse mass that is set is the inverse mass that is read.
pub proof fn lemma_inverse_mass_round_trip(particle: Particle, inverse_mass: Scalar)
    ensures
        ({
            let set = Particle {
                inverse_mass_numerator: inverse_mass,
                inverse_mass_denominator: Scalar { raw: UNIT },
                ..particle
            };
            set.inverse_mass_fits() && set.inverse_mass() == inverse_mass@
        }),
{
    lemma_trunc_div_exact(inverse_mass@, UNIT as int);
}

/// Where the inverse mass is positive, the mass that is read is positive.
pub proof fn lemma_mass_positive(particle: Particle)
    requires
        particle.inverse_mass_fits(),
        particle.inverse_mass() > 0,
        particle.mass_fits(),
    ensures
        particle.mass() > 0,
{
    let a = particle.inverse_mass_numerator@;
    let b = particle.inverse_mass_denominator@;
    lemma_trunc_div_sign(a * UNIT, b);
    assert(a != 0) by {
        if a == 0 {
            lemma_trunc_div_exact(0, b);
            assert(0 * b == 0) by (nonlinear_arith);
            assert(a * UNIT == 0);
        }
    }
    lemma_trunc_div_sign(b * UNIT, a);
}

/// A step of integration does not read the inverse mass: with any other
/// inverse mass the step fits in the same cases and moves the particle to
/// the same position and velocity. An immovable particle is moved like
/// every other.
pub proof fn lemma_step_ignores_mass(
    particle: Particle,
    numerator: Scalar,
    denominator: Scalar,
    duration: Scalar,
    decay: Scalar,
)
    ensures
        ({
            let other = Particle {
                inverse_mass_numerator: numerator,
                inverse_mass_denominator: denominator,
                ..particle
            };
            &&& other.can_integrate(duration, decay) == particle.can_integrate(duration, decay)
            &&& other.position_after(duration@) == particle.position_after(duration@)
            &&& other.velocity_after(duration@, decay@) == particle.velocity_after(
                duration@,
                decay@,
            )
        }),
{
}

} // verus!
