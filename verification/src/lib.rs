//! A kinematics core for particle simulation, in exact arithmetic.
//!
//! The crate has three layers. [`Scalar`] is a decimal fixed-point number: a
//! whole count of steps of `1 / UNIT`. [`Vector3`] is a vector of three scalars with
//! its algebra: sums, scaling, the scalar and the vector product, length and
//! normalization. [`Particle`] is a point mass that one call of
//! [`Particle::integrate`] advances in time.
//!
//! Every operation is stated over unbounded integers, the raw counts, and is
//! proved to return what it states. The laws of the algebra are proved in
//! [`laws`] over the same statements.

pub mod laws;
pub mod particle;
pub mod scalar;
pub mod sqrt;
pub mod text;
pub mod vector;

pub use particle::Particle;
pub use scalar::Scalar;
pub use scalar::UNIT;
pub use vector::Triple;
pub use vector::Vector3;
