use kellenth::{Scalar, Vector3};

fn vector(x: i64, y: i64, z: i64) -> Vector3 {
    Vector3 { x: Scalar { raw: x }, y: Scalar { raw: y }, z: Scalar { raw: z } }
}

#[test]
fn text_of_a_vector() {
    let v = vector(30_000_000_000_000, 40_000_000_000_000, 0);
    assert_eq!(
        v.to_string(),
        "value: [x = 3, y = 4, z = 0]; magnitude = 5; direction = [x = 0.6, y = 0.8, z = 0]"
    );
}

#[test]
fn text_of_the_zero_vector() {
    let v = vector(0, 0, 0);
    assert_eq!(
        v.to_string(),
        "value: [x = 0, y = 0, z = 0]; magnitude = 0; direction = [x = 0, y = 0, z = 0]"
    );
}

#[test]
fn text_shows_signs_and_fractions() {
    let v = vector(-98_000_000_000_000, 1, -5_000_000_000_000);
    assert_eq!(
        v.to_string(),
        "value: [x = -9.8, y = 0.0000000000001, z = -0.5]; magnitude = 9.8127468121826; direction = [x = -0.9987009944894, y = 0, z = -0.0509541323719]"
    );
}

#[test]
fn text_keeps_inner_zeros_of_a_fraction() {
    let v = vector(100_101_000_000_000, 0, 0);
    assert_eq!(
        v.to_string(),
        "value: [x = 10.0101, y = 0, z = 0]; magnitude = 10.0101; direction = [x = 1, y = 0, z = 0]"
    );
}

#[test]
fn text_of_the_largest_components() {
    let v = vector(i64::MAX, i64::MIN, 0);
    assert_eq!(
        v.to_string(),
        "value: [x = 922337.2036854775807, y = -922337.2036854775808, z = 0]; magnitude = 1304381.7825332782211; direction = [x = 0.7071067811865, y = -0.7071067811865, z = 0]"
    );
}
