use kellenth::{Particle, Scalar, Vector3};

fn raw(value: i64) -> Scalar {
    Scalar { raw: value }
}

fn vector(x: i64, y: i64, z: i64) -> Vector3 {
    Vector3 { x: raw(x), y: raw(y), z: raw(z) }
}

/// The scalar that stands for so many tenths.
fn tenths(value: i64) -> Scalar {
    raw(value * 1_000_000_000_000)
}

/// At the origin, moving along x at one unit per unit of time, falling at
/// 9.8 units per unit of time squared.
fn falling(damping: Scalar) -> Particle {
    Particle::new(
        vector(0, 0, 0),
        vector(10_000_000_000_000, 0, 0),
        vector(0, -98_000_000_000_000, 0),
        damping,
    )
}

#[test]
fn new_particle_keeps_its_arguments() {
    let p = Particle::new(vector(1, 2, 3), vector(4, 5, 6), vector(7, 8, 9), tenths(9));
    assert_eq!(p.position, vector(1, 2, 3));
    assert_eq!(p.velocity, vector(4, 5, 6));
    assert_eq!(p.acceleration, vector(7, 8, 9));
    assert_eq!(p.damping, tenths(9));
}

#[test]
fn new_particle_is_immovable() {
    let p = falling(tenths(10));
    assert!(p.fits_get_inverse_mass());
    assert_eq!(p.get_inverse_mass(), raw(0));
    assert!(p.fits_get_mass());
    assert_eq!(p.get_mass(), raw(i64::MAX));
    assert_eq!(p.get_mass(), Scalar::max_value());
}

#[test]
fn inverse_mass_is_stored_as_given() {
    let mut p = falling(tenths(10));
    let values = [
        2_500_000_000_000,
        -20_000_000_000_000,
        1,
        -1,
        0,
        i64::MAX,
        i64::MIN,
        2_000_000_000_000_000_000,
    ];
    for value in values {
        p.set_inverse_mass(raw(value));
        assert!(p.fits_get_inverse_mass());
        assert_eq!(p.get_inverse_mass(), raw(value));
    }
}

#[test]
fn mass_is_the_reciprocal_of_the_inverse_mass() {
    let mut p = falling(tenths(10));
    p.set_inverse_mass(raw(2_500_000_000_000));
    assert_eq!(p.get_mass(), raw(40_000_000_000_000));
    p.set_inverse_mass(raw(-20_000_000_000_000));
    assert_eq!(p.get_mass(), raw(-5_000_000_000_000));
    p.set_inverse_mass(raw(30_000_000_000_000));
    assert_eq!(p.get_mass(), raw(3_333_333_333_333));
    p.set_inverse_mass(raw(10_842_022));
    assert_eq!(p.get_mass(), raw(9_223_371_802_787_339_852));
    p.set_inverse_mass(raw(11_000_000));
    assert_eq!(p.get_mass(), raw(9_090_909_090_909_090_909));
    p.set_inverse_mass(raw(0));
    assert_eq!(p.get_mass(), raw(i64::MAX));
}

#[test]
fn mass_that_a_scalar_cannot_hold_is_not_read() {
    let mut p = falling(tenths(10));
    p.set_inverse_mass(raw(i64::MAX));
    assert!(p.fits_get_mass());
    p.set_inverse_mass(raw(i64::MIN));
    assert!(p.fits_get_mass());
    p.set_inverse_mass(raw(0));
    assert!(p.fits_get_mass());
    p.set_inverse_mass(raw(1_000_000_000_000_000_000));
    assert!(p.fits_get_mass());
    p.set_inverse_mass(raw(10_000_000));
    assert!(!p.fits_get_mass());
    p.set_inverse_mass(raw(11_000_000));
    assert!(p.fits_get_mass());
    p.set_inverse_mass(raw(10_842_021));
    assert!(!p.fits_get_mass());
}

#[test]
fn setters_leave_the_motion_alone() {
    let mut p = falling(tenths(9));
    p.set_inverse_mass(tenths(25));
    p.set_mass(tenths(30));
    assert_eq!(p.position, vector(0, 0, 0));
    assert_eq!(p.velocity, vector(10_000_000_000_000, 0, 0));
    assert_eq!(p.acceleration, vector(0, -98_000_000_000_000, 0));
    assert_eq!(p.damping, tenths(9));
}

#[test]
fn mass_round_trip() {
    let mut p = falling(tenths(10));
    let masses = [
        20_000_000_000_000,
        -40_000_000_000_000,
        30_000_000_000_000,
        -30_000_000_000_000,
        1,
        -1,
        15_000_000_000_000_000,
        7_000_000_000_000_000_000,
        9_990_000_000_000_000,
        i64::MAX,
        i64::MIN,
        3_333_333_333_333,
    ];
    for mass in masses {
        p.set_mass(raw(mass));
        assert!(p.fits_get_mass());
        assert_eq!(p.get_mass(), raw(mass));
    }
}

#[test]
fn inverse_of_a_mass_that_was_set() {
    let mut p = falling(tenths(10));
    p.set_mass(raw(20_000_000_000_000));
    assert!(p.fits_get_inverse_mass());
    assert_eq!(p.get_inverse_mass(), raw(5_000_000_000_000));
    p.set_mass(raw(-40_000_000_000_000));
    assert!(p.fits_get_inverse_mass());
    assert_eq!(p.get_inverse_mass(), raw(-2_500_000_000_000));
    p.set_mass(raw(30_000_000_000_000));
    assert!(p.fits_get_inverse_mass());
    assert_eq!(p.get_inverse_mass(), raw(3_333_333_333_333));
    p.set_mass(raw(15_000_000_000_000_000));
    assert!(p.fits_get_inverse_mass());
    assert_eq!(p.get_inverse_mass(), raw(6_666_666_666));
    p.set_mass(raw(7_000_000_000_000_000_000));
    assert!(p.fits_get_inverse_mass());
    assert_eq!(p.get_inverse_mass(), raw(14_285_714));
    p.set_mass(raw(i64::MAX));
    assert!(p.fits_get_inverse_mass());
    assert_eq!(p.get_inverse_mass(), raw(10_842_021));
    p.set_mass(raw(100_000_000));
    assert!(p.fits_get_inverse_mass());
    assert_eq!(p.get_inverse_mass(), raw(1_000_000_000_000_000_000));
}

#[test]
fn inverse_of_a_mass_too_small_is_not_read() {
    let mut p = falling(tenths(10));
    p.set_mass(raw(1));
    assert!(!p.fits_get_inverse_mass());
    // The mass itself is read as it was set.
    assert_eq!(p.get_mass(), raw(1));
    p.set_mass(raw(1_000_000));
    assert!(!p.fits_get_inverse_mass());
    // The mass itself is read as it was set.
    assert_eq!(p.get_mass(), raw(1_000_000));
    p.set_mass(raw(10_842_021));
    assert!(!p.fits_get_inverse_mass());
    // The mass itself is read as it was set.
    assert_eq!(p.get_mass(), raw(10_842_021));
}

#[test]
fn a_positive_inverse_mass_gives_a_positive_mass() {
    let mut p = falling(tenths(10));
    let values = [
        10_842_022,
        9_999_999_999_999,
        10_000_000_000_000,
        20_000_000_000_000,
        7_000_000_000_000_000_000,
        4_611_686_018_427_387_903,
        i64::MAX,
    ];
    for value in values {
        p.set_inverse_mass(raw(value));
        assert!(p.fits_get_mass());
        assert!(p.get_mass().raw > 0);
    }
}

#[test]
fn fit_checks_of_a_fraction_set_by_hand() {
    let mut p = falling(tenths(10));
    p.inverse_mass_numerator = raw(1);
    p.inverse_mass_denominator = raw(0);
    assert!(!p.fits_get_inverse_mass());
    assert!(!p.fits_get_mass());
    p.inverse_mass_numerator = raw(i64::MAX);
    p.inverse_mass_denominator = raw(1);
    assert!(!p.fits_get_inverse_mass());
    assert!(!p.fits_get_mass());
    p.inverse_mass_numerator = raw(2);
    p.inverse_mass_denominator = raw(6);
    assert!(p.fits_get_inverse_mass());
    assert_eq!(p.get_inverse_mass(), raw(3_333_333_333_333));
    assert_eq!(p.get_mass(), raw(30_000_000_000_000));
}

#[test]
fn integrate_without_damping() {
    let mut p = falling(tenths(10));
    p.integrate(tenths(10), tenths(10));
    assert_eq!(p.position, vector(10_000_000_000_000, 0, 0));
    assert_eq!(p.velocity, vector(10_000_000_000_000, -98_000_000_000_000, 0));
    assert_eq!(p.acceleration, vector(0, -98_000_000_000_000, 0));
    assert_eq!(p.damping, tenths(10));
    assert_eq!(p.get_inverse_mass(), raw(0));
}

#[test]
fn integrate_uses_the_old_velocity_for_the_position() {
    let mut p = falling(tenths(10));
    p.integrate(tenths(10), tenths(10));
    p.integrate(tenths(10), tenths(10));
    assert_eq!(p.position, vector(20_000_000_000_000, -98_000_000_000_000, 0));
    assert_eq!(p.velocity, vector(10_000_000_000_000, -196_000_000_000_000, 0));
}

#[test]
fn integrate_with_damping() {
    let mut p = falling(tenths(9));
    p.integrate(tenths(10), tenths(9));
    assert_eq!(p.position, vector(10_000_000_000_000, 0, 0));
    assert_eq!(p.velocity, vector(9_000_000_000_000, -88_200_000_000_000, 0));
}

#[test]
fn integrate_half_a_step() {
    let mut p = falling(tenths(10));
    p.integrate(tenths(5), tenths(10));
    assert_eq!(p.position, vector(5_000_000_000_000, 0, 0));
    assert_eq!(p.velocity, vector(10_000_000_000_000, -49_000_000_000_000, 0));
}

#[test]
fn immovable_particle_still_moves() {
    let mut p = falling(tenths(10));
    assert_eq!(p.get_mass(), raw(i64::MAX));
    p.integrate(tenths(10), tenths(10));
    p.integrate(tenths(10), tenths(10));
    p.integrate(tenths(10), tenths(10));
    assert_eq!(p.position, vector(30_000_000_000_000, -294_000_000_000_000, 0));
    assert_eq!(p.velocity, vector(10_000_000_000_000, -294_000_000_000_000, 0));
    assert_eq!(p.get_inverse_mass(), raw(0));
    assert_eq!(p.get_mass(), raw(i64::MAX));
}

#[test]
fn integrate_does_not_read_the_mass() {
    let mut light = falling(tenths(9));
    light.set_mass(raw(1_000));
    let mut heavy = falling(tenths(9));
    heavy.set_mass(tenths(9_000));
    light.integrate(raw(2_500_000_000_000), raw(9_740_037_464_253));
    heavy.integrate(raw(2_500_000_000_000), raw(9_740_037_464_253));
    assert_eq!(light.position, heavy.position);
    assert_eq!(light.velocity, heavy.velocity);
    assert_eq!(light.position, vector(2_500_000_000_000, 0, 0));
    assert_eq!(light.velocity, vector(9_740_037_464_253, -23_863_091_787_419, 0));
}

#[test]
fn try_integrate_takes_a_step_that_fits() {
    let mut p = falling(tenths(9));
    assert!(p.try_integrate(tenths(10), tenths(9)));
    assert_eq!(p.position, vector(10_000_000_000_000, 0, 0));
    assert_eq!(p.velocity, vector(9_000_000_000_000, -88_200_000_000_000, 0));
    let mut q = falling(tenths(9));
    q.integrate(tenths(10), tenths(9));
    assert_eq!(p, q);
}

#[test]
fn try_integrate_refuses_a_position_out_of_range() {
    let start = Particle::new(vector(i64::MAX, 0, 0), vector(1, 0, 0), vector(0, 0, 0), tenths(10));
    let mut p = start;
    assert!(!p.try_integrate(tenths(10), tenths(10)));
    assert_eq!(p, start);
    // Moving the other way fits.
    p.velocity = vector(-1, 0, 0);
    assert!(p.try_integrate(tenths(10), tenths(10)));
    assert_eq!(p.position, vector(i64::MAX - 1, 0, 0));
}

#[test]
fn try_integrate_refuses_a_velocity_out_of_range() {
    let start =
        Particle::new(vector(0, 0, 0), vector(0, i64::MIN, 0), vector(0, -1, 0), tenths(10));
    let mut p = start;
    assert!(!p.try_integrate(tenths(10), tenths(5)));
    assert_eq!(p, start);
}

#[test]
fn try_integrate_refuses_a_damped_velocity_out_of_range() {
    let start = Particle::new(
        vector(0, 0, 0),
        vector(0, 0, 6_000_000_000_000_000_000),
        vector(0, 0, 0),
        tenths(10),
    );
    let mut p = start;
    // Twice the velocity is beyond the largest scalar.
    assert!(!p.try_integrate(raw(1), tenths(20)));
    assert_eq!(p, start);
    assert!(p.try_integrate(raw(1), tenths(15)));
    assert_eq!(p.velocity, vector(0, 0, 9_000_000_000_000_000_000));
    assert_eq!(p.position, vector(0, 0, 600_000));
}
