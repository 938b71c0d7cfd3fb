//! A point mass and its integrator.
//!
//! A particle stores the inverse of its mass, so that a mass of infinity is
//! the plain value zero. One step of integration moves the position by the
//! velocity, then the velocity by the acceleration, then damps the velocity.

use crate::scalar::div_fixed;
use crate::scalar::lemma_trunc_div_exact;
use crate::scalar::lemma_trunc_div_sign;
use crate::scalar::representable;
use crate::scalar::Scalar;
use crate::scalar::UNIT;
use crate::vector::Triple;
use crate::vector::Vector3;
use core::ops::MulAssign;
use vstd::prelude::*;

verus! {

/// A point mass in space.
///
/// The inverse mass is held as a fraction of two scalars, so that a mass
/// that was set is read back as it was set, and an inverse mass likewise.
#[derive(Clone, Copy, Debug, PartialEq, Eq, Structural)]
pub struct Particle {
    /// Position in world space.
    pub position: Vector3,
    /// Linear velocity in world space.
    pub velocity: Vector3,
    /// Acceleration applied at every step.
    pub acceleration: Vector3,
    /// Share of the velocity that is left after one unit of time; one means
    /// no damping.
    pub damping: Scalar,
    /// Numerator of the inverse mass; zero makes the particle immovable.
    pub inverse_mass_numerator: Scalar,
    /// Denominator of the inverse mass; the setters never make it zero.
    pub inverse_mass_denominator: Scalar,
}

impl Particle {
    /// Raw value of the inverse mass: the numerator divided by the
    /// denominator.
    pub open spec fn inverse_mass(self) -> int {
        div_fixed(self.inverse_mass_numerator@, self.inverse_mass_denominator@)
    }

    /// Raw value of the mass: the denominator divided by the numerator, or
    /// the largest scalar, which stands for infinity, where the inverse
    /// mass is zero.
    pub open spec fn mass(self) -> int {
        if self.inverse_mass_numerator@ == 0 {
            i64::MAX as int
        } else {
            div_fixed(self.inverse_mass_denominator@, self.inverse_mass_numerator@)
        }
    }

    /// Whether a scalar can hold the inverse mass: the denominator is not
    /// zero, the quotient fits, and it is zero only where the numerator is.
    pub open spec fn inverse_mass_fits(self) -> bool {
        &&& self.inverse_mass_denominator@ != 0
        &&& representable(self.inverse_mass())
        &&& self.inverse_mass_numerator@ != 0 ==> self.inverse_mass() != 0
    }

    /// Whether a scalar can hold the mass: the particle is immovable, or
    /// the quotient fits and is not zero.
    pub open spec fn mass_fits(self) -> bool {
        self.inverse_mass_numerator@ == 0 || (representable(self.mass()) && self.mass() != 0)
    }

    /// The position after a step of `duration`: moved by the velocity that
    /// the particle had before the step.
    pub open spec fn position_after(self, duration: int) -> Triple {
        self.position@.plus_scaled(self.velocity@, duration)
    }

    /// The velocity in the middle of a step of `duration`: moved by the
    /// acceleration, not yet damped.
    pub open spec fn velocity_accelerated(self, duration: int) -> Triple {
        self.velocity@.plus_scaled(self.acceleration@, duration)
    }

    /// The velocity after a step of `duration`: moved by the acceleration,
    /// then multiplied by `decay`.
    pub open spec fn velocity_after(self, duration: int, decay: int) -> Triple {
        self.velocity_accelerated(duration).scaled(decay)
    }

    /// Whether every vector that one step computes fits: the new position,
    /// the velocity after acceleration, and the velocity after damping.
    pub open spec fn can_integrate(self, duration: Scalar, decay: Scalar) -> bool {
        &&& self.position_after(duration@).representable()
        &&& self.velocity_accelerated(duration@).representable()
        &&& self.velocity_after(duration@, decay@).representable()
    }

    /// A particle of infinite mass.
    pub fn new(
        position: Vector3,
        velocity: Vector3,
        acceleration: Vector3,
        damping: Scalar,
    ) -> (r: Self)
        ensures
            r.position == position,
            r.velocity == velocity,
            r.acceleration == acceleration,
            r.damping == damping,
            r.inverse_mass_numerator@ == 0,
            r.inverse_mass_denominator@ == UNIT,
            r.inverse_mass() == 0,
            r.mass() == i64::MAX,
            r.inverse_mass_fits(),
            r.mass_fits(),
    {
        Particle {
            position,
            velocity,
            acceleration,
            damping,
            inverse_mass_numerator: Scalar::zero(),
            inverse_mass_denominator: Scalar::one(),
        }
    }

    /// Whether `get_inverse_mass` can be called.
    pub fn fits_get_inverse_mass(&self) -> (ok: bool)
        ensures
            ok == self.inverse_mass_fits(),
    {
        if !self.inverse_mass_numerator.fits_div(self.inverse_mass_denominator) {
            return false;
        }
        let quotient: Scalar = self.inverse_mass_numerator / self.inverse_mass_denominator;
        self.inverse_mass_numerator.raw == 0 || quotient.raw != 0
    }

    /// The inverse mass, which a scalar must be able to hold; zero for an
    /// immovable particle and for no other.
    pub fn get_inverse_mass(self) -> (r: Scalar)
        requires
            self.inverse_mass_fits(),
        ensures
            r@ == self.inverse_mass(),
            r@ == 0 <==> self.inverse_mass_numerator@ == 0,
    {
        self.inverse_mass_numerator / self.inverse_mass_denominator
    }

    /// Stores the inverse mass as given.
    pub fn set_inverse_mass(&mut self, inverse_mass: Scalar)
        ensures
            final(self).inverse_mass_numerator == inverse_mass,
            final(self).inverse_mass_denominator@ == UNIT,
            final(self).inverse_mass() == inverse_mass@,
            final(self).inverse_mass_fits(),
            final(self).position == old(self).position,
            final(self).velocity == old(self).velocity,
            final(self).acceleration == old(self).acceleration,
            final(self).damping == old(self).damping,
    {
        proof {
            lemma_trunc_div_exact(inverse_mass@, UNIT as int);
        }
        self.inverse_mass_numerator = inverse_mass;
        self.inverse_mass_denominator = Scalar::one();
    }

    /// Whether `get_mass` can be called.
    pub fn fits_get_mass(&self) -> (ok: bool)
        ensures
            ok == self.mass_fits(),
    {
        if self.inverse_mass_numerator.raw == 0 {
            return true;
        }
        if !self.inverse_mass_denominator.fits_div(self.inverse_mass_numerator) {
            return false;
        }
        let quotient: Scalar = self.inverse_mass_denominator / self.inverse_mass_numerator;
        quotient.raw != 0
    }

    /// The mass, which a scalar must be able to hold; the largest scalar
    /// for an immovable particle, and never zero.
    pub fn get_mass(self) -> (r: Scalar)
        requires
            self.mass_fits(),
        ensures
            r@ == self.mass(),
            r@ != 0,
            self.inverse_mass_numerator@ >= 0 && self.inverse_mass_denominator@ >= 0 ==> r@ > 0,
            self.inverse_mass_numerator@ < 0 && self.inverse_mass_denominator@ < 0 ==> r@ > 0,
    {
        if self.inverse_mass_numerator.raw == 0 {
            Scalar::max_value()
        } else {
            proof {
                lemma_trunc_div_sign(
                    self.inverse_mass_denominator@ * UNIT,
                    self.inverse_mass_numerator@,
                );
            }
            self.inverse_mass_denominator / self.inverse_mass_numerator
        }
    }

    /// Stores the inverse of a mass, which must not be zero: the fraction
    /// of one over the mass.
    pub fn set_mass(&mut self, mass: Scalar)
        requires
            mass@ != 0,
        ensures
            final(self).inverse_mass_numerator@ == UNIT,
            final(self).inverse_mass_denominator == mass,
            final(self).mass() == mass@,
            final(self).mass_fits(),
            final(self).position == old(self).position,
            final(self).velocity == old(self).velocity,
            final(self).acceleration == old(self).acceleration,
            final(self).damping == old(self).damping,
    {
        proof {
            lemma_trunc_div_exact(mass@, UNIT as int);
        }
        self.inverse_mass_numerator = Scalar::one();
        self.inverse_mass_denominator = mass;
    }

    /// Advances the particle by `duration`, which must be positive.
    ///
    /// The position moves by the velocity it had before the step. The
    /// velocity then moves by the acceleration and is multiplied by `decay`,
    /// the damping raised to the power of the duration.
    pub fn integrate(&mut self, duration: Scalar, decay: Scalar)
        requires
            duration@ > 0,
            old(self).can_integrate(duration, decay),
        ensures
            final(self).position@ == old(self).position_after(duration@),
            final(self).velocity@ == old(self).velocity_after(duration@, decay@),
            final(self).acceleration == old(self).acceleration,
            final(self).damping == old(self).damping,
            final(self).inverse_mass_numerator == old(self).inverse_mass_numerator,
            final(self).inverse_mass_denominator == old(self).inverse_mass_denominator,
    {
        self.position.add_scaled_vector(self.velocity, duration);
        let resulting_acceleration: Vector3 = self.acceleration;
        self.velocity.add_scaled_vector(resulting_acceleration, duration);
        self.velocity.mul_assign(decay);
    }

    /// Advances the particle by `duration`, which must be positive, where
    /// every vector of the step fits; leaves it as it is where one does not.
    /// Returns whether the step was taken.
    pub fn try_integrate(&mut self, duration: Scalar, decay: Scalar) -> (taken: bool)
        requires
            duration@ > 0,
        ensures
            taken == old(self).can_integrate(duration, decay),
            taken ==> final(self).position@ == old(self).position_after(duration@),
            taken ==> final(self).velocity@ == old(self).velocity_after(duration@, decay@),
            !taken ==> final(self).position == old(self).position,
            !taken ==> final(self).velocity == old(self).velocity,
            final(self).acceleration == old(self).acceleration,
            final(self).damping == old(self).damping,
            final(self).inverse_mass_numerator == old(self).inverse_mass_numerator,
            final(self).inverse_mass_denominator == old(self).inverse_mass_denominator,
    {
        if !self.position.fits_add_scaled_vector(self.velocity, duration) {
            return false;
        }
        if !self.velocity.fits_add_scaled_vector(self.acceleration, duration) {
            return false;
        }
        let mut accelerated: Vector3 = self.velocity;
        accelerated.add_scaled_vector(self.acceleration, duration);
        if !accelerated.fits_scaled(decay) {
            return false;
        }
        self.integrate(duration, decay);
        true
    }
}

} // verus!
