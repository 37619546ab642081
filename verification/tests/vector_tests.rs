use puma_physics::mat3::Mat3;
use puma_physics::quat::Quat;
use puma_physics::scalar::Scalar;
use puma_physics::vec3::{det2, dot3, Vec3};

const ONE: i64 = 1_000_000;

fn raw3(v: Vec3) -> (i64, i64, i64) {
    (v.x.raw(), v.y.raw(), v.z.raw())
}

fn raw4(q: Quat) -> (i64, i64, i64, i64) {
    (q.x.raw(), q.y.raw(), q.z.raw(), q.w.raw())
}

fn squared_length(q: Quat) -> i128 {
    let (x, y, z, w) = raw4(q);
    (x as i128) * (x as i128) + (y as i128) * (y as i128) + (z as i128) * (z as i128)
        + (w as i128) * (w as i128)
}

#[test]
fn vector_sum_difference_negation_and_scaling() {
    let a = Vec3::from_raw(ONE, -2 * ONE, 3 * ONE);
    let b = Vec3::from_raw(500_000, 500_000, -500_000);
    assert_eq!(raw3(a.add(b)), (1_500_000, -1_500_000, 2_500_000));
    assert_eq!(raw3(a.sub(b)), (500_000, -2_500_000, 3_500_000));
    assert_eq!(raw3(a.neg()), (-ONE, 2 * ONE, -3 * ONE));
    assert_eq!(raw3(a.scale(Scalar::from_raw(-500_000))), (-500_000, ONE, -1_500_000));
    assert_eq!(raw3(a.div(Scalar::from_int(-3))), (-333_333, 666_666, -ONE));
    assert_eq!(raw3(Vec3::zero()), (0, 0, 0));
    assert_eq!(raw3(Vec3::up()), (0, ONE, 0));
    assert_eq!(raw3(Vec3::new(Scalar::one(), Scalar::zero(), Scalar::from_int(2))), (ONE, 0, 2 * ONE));
}

#[test]
fn vector_dot_and_cross_products() {
    let a = Vec3::from_raw(ONE, 2 * ONE, 3 * ONE);
    let b = Vec3::from_raw(4 * ONE, -5 * ONE, 6 * ONE);
    assert_eq!(a.dot(b).raw(), 12 * ONE);
    assert_eq!(a.length_squared().raw(), 14 * ONE);
    let x = Vec3::from_raw(ONE, 0, 0);
    let y = Vec3::from_raw(0, ONE, 0);
    assert_eq!(raw3(x.cross(y)), (0, 0, ONE));
    assert_eq!(raw3(y.cross(x)), (0, 0, -ONE));
    assert_eq!(raw3(a.cross(b)), (27 * ONE, 6 * ONE, -13 * ONE));
    assert_eq!(dot3(a.x, a.y, a.z, b.x, b.y, b.z), 12 * (ONE as i128) * (ONE as i128));
    assert_eq!(det2(a.x, a.y, b.x, b.y), -13 * (ONE as i128) * (ONE as i128));
}

#[test]
fn vector_normalisation_and_its_fallback() {
    let v = Vec3::from_raw(3 * ONE, 4 * ONE, 0);
    assert_eq!(raw3(v.normalize_or(Vec3::up())), (600_000, 800_000, 0));
    assert_eq!(raw3(Vec3::zero().normalize_or(Vec3::up())), (0, ONE, 0));
    let tiny = Vec3::from_raw(0, 0, -1);
    assert_eq!(raw3(tiny.normalize_or(Vec3::up())), (0, 0, -ONE));
    assert!(Vec3::zero().is_zero());
    assert!(!tiny.is_zero());
}

#[test]
fn vector_length_is_limited_without_turning_it() {
    let v = Vec3::from_raw(3 * ONE, 4 * ONE, 0);
    assert_eq!(raw3(v.clamp_length(Scalar::from_int(5))), (3 * ONE, 4 * ONE, 0));
    assert_eq!(raw3(v.clamp_length(Scalar::one())), (599_999, 799_999, 0));
    let w = Vec3::from_raw(30 * ONE, -40 * ONE, 0);
    assert_eq!(raw3(w.clamp_length(Scalar::from_int(5))), (2_999_999, -3_999_999, 0));
    assert_eq!(raw3(w.clamp_length(Scalar::zero())), (0, 0, 0));
}

#[test]
fn quaternion_products_and_identity() {
    let half_turn_z = Quat::from_raw(0, 0, 707_107, 707_107);
    assert_eq!(raw4(half_turn_z.mul(half_turn_z)), (0, 0, ONE, 0));
    assert_eq!(raw4(Quat::identity()), (0, 0, 0, ONE));
    assert_eq!(raw4(Quat::identity().mul(half_turn_z)), (0, 0, 707_107, 707_107));
    assert_eq!(raw4(half_turn_z.add(Quat::identity())), (0, 0, 707_107, 1_707_107));
    assert_eq!(raw4(Quat::pure(Vec3::from_raw(1, 2, 3))), (1, 2, 3, 0));
    let q = Quat::from_xyzw(Scalar::one(), Scalar::zero(), Scalar::zero(), Scalar::zero());
    assert_eq!(raw4(q), (ONE, 0, 0, 0));
}

#[test]
fn quaternion_normalisation_gives_unit_length() {
    let q = Quat::from_raw(0, 0, 707_107, 707_107).normalize();
    assert_eq!(raw4(q), (0, 0, 707_106, 707_106));
    let long = Quat::from_raw(3 * ONE, -4 * ONE, 12 * ONE, 84 * ONE).normalize();
    let n = squared_length(long);
    assert!(n >= 999_995 * 999_995 && n <= 1_000_001 * 1_000_001);
    assert_eq!(raw4(Quat::from_raw(0, 0, 0, 0).normalize()), (0, 0, 0, ONE));
    assert_eq!(raw4(Quat::from_raw(0, 0, 0, -7).normalize()), (0, 0, 0, -ONE));
}

#[test]
fn quaternion_rotates_vectors() {
    let quarter_turn_z = Quat::from_raw(0, 0, 707_107, 707_107).normalize();
    assert_eq!(raw3(quarter_turn_z.rotate(Vec3::from_raw(ONE, 0, 0))), (0, 999_997, 0));
    let v = Vec3::from_raw(ONE, -2 * ONE, 3 * ONE);
    assert_eq!(raw3(Quat::identity().rotate(v)), (ONE, -2 * ONE, 3 * ONE));
}

#[test]
fn quaternion_integration_turns_about_the_angular_velocity() {
    let q = Quat::identity().integrate(Vec3::from_raw(0, 0, 3 * ONE), Scalar::from_raw(20_000));
    assert_eq!(raw4(q), (0, 0, 29_986, 999_550));
    let still = Quat::identity().integrate(Vec3::zero(), Scalar::from_raw(20_000));
    assert_eq!(raw4(still), (0, 0, 0, ONE));
}

#[test]
fn matrix_times_vector() {
    let m = Mat3::from_cols(
        Vec3::from_raw(ONE, 2 * ONE, 3 * ONE),
        Vec3::from_raw(4 * ONE, 5 * ONE, 6 * ONE),
        Vec3::from_raw(7 * ONE, 8 * ONE, 9 * ONE),
    );
    let v = Vec3::from_raw(ONE, 0, -ONE);
    assert_eq!(raw3(m.mul_vec3(v)), (-6 * ONE, -6 * ONE, -6 * ONE));
    assert_eq!(raw3(Mat3::identity().mul_vec3(v)), (ONE, 0, -ONE));
    assert_eq!(raw3(Mat3::zero().mul_vec3(v)), (0, 0, 0));
}

#[test]
fn matrix_inverse_of_diagonal_and_general_matrices() {
    let small = Mat3::from_diagonal(Vec3::from_raw(1_000, 2_000, 4_000)).inverse().unwrap();
    assert_eq!(raw3(small.x_axis), (1_000 * ONE, 0, 0));
    assert_eq!(raw3(small.y_axis), (0, 500 * ONE, 0));
    assert_eq!(raw3(small.z_axis), (0, 0, 250 * ONE));
    let m = Mat3::from_cols(
        Vec3::from_raw(2 * ONE, 0, 0),
        Vec3::from_raw(ONE, ONE, 0),
        Vec3::from_raw(0, 0, 4 * ONE),
    );
    let inverse = m.inverse().unwrap();
    assert_eq!(raw3(inverse.x_axis), (500_000, 0, 0));
    assert_eq!(raw3(inverse.y_axis), (-500_000, ONE, 0));
    assert_eq!(raw3(inverse.z_axis), (0, 0, 250_000));
}

#[test]
fn matrix_without_inverse_has_none() {
    assert!(Mat3::zero().inverse().is_none());
    let flat = Mat3::from_diagonal(Vec3::from_raw(ONE, 0, ONE));
    assert!(flat.inverse().is_none());
    let dependent = Mat3::from_cols(
        Vec3::from_raw(ONE, 2 * ONE, 3 * ONE),
        Vec3::from_raw(2 * ONE, 4 * ONE, 6 * ONE),
        Vec3::from_raw(0, 0, ONE),
    );
    assert!(dependent.inverse().is_none());
}
