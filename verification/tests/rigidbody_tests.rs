use puma_physics::collider::{cuboid_inertia, Collider, CuboidCollider};
use puma_physics::error::PhysicsError;
use puma_physics::mat3::Mat3;
use puma_physics::quat::Quat;
use puma_physics::rigidbody::{Pose, Rigidbody};
use puma_physics::scalar::Scalar;
use puma_physics::simulation::{pose_integrate_phase, PumaPhysicsSettings};
use puma_physics::vec3::Vec3;

const UNIT: i64 = 1_000_000;

fn triple(v: Vec3) -> (i64, i64, i64) {
    (v.x.raw(), v.y.raw(), v.z.raw())
}

fn quadruple(q: Quat) -> (i64, i64, i64, i64) {
    (q.x.raw(), q.y.raw(), q.z.raw(), q.w.raw())
}

fn squared(v: Vec3) -> i128 {
    let (x, y, z) = triple(v);
    (x as i128) * (x as i128) + (y as i128) * (y as i128) + (z as i128) * (z as i128)
}

fn squared_norm(q: Quat) -> i128 {
    let (x, y, z, w) = quadruple(q);
    (x as i128) * (x as i128) + (y as i128) * (y as i128) + (z as i128) * (z as i128)
        + (w as i128) * (w as i128)
}

fn undamped() -> Rigidbody {
    let mut body = Rigidbody::default();
    body.set_linear_damping(Scalar::zero()).unwrap();
    body.set_angular_damping(Scalar::zero()).unwrap();
    body
}

fn weightless() -> PumaPhysicsSettings {
    let mut settings = PumaPhysicsSettings::new();
    settings.gravity_acceleration = Vec3::zero();
    settings
}

#[test]
fn free_fall_from_rest() {
    let mut body = undamped();
    let mut pose = Pose::origin();
    body.step(&mut pose, &PumaPhysicsSettings::new(), Scalar::from_raw(20_000));
    assert_eq!(triple(body.linear_velocity()), (0, -196_000, 0));
    assert_eq!(triple(pose.translation), (0, -3_920, 0));
    assert_eq!(quadruple(pose.rotation), (0, 0, 0, UNIT));
    let velocity = body.linear_velocity().y.raw() as f64 / UNIT as f64;
    let position = pose.translation.y.raw() as f64 / UNIT as f64;
    assert!((velocity - (-0.196)).abs() < 1e-9);
    assert!((position - (-0.00392)).abs() < 1e-9);
}

#[test]
fn at_rest_without_force_stays_at_rest() {
    for damping in [0, 300_000, 700_000, 50 * UNIT] {
        let mut body = Rigidbody::default();
        body.set_linear_damping(Scalar::from_raw(damping)).unwrap();
        body.set_angular_damping(Scalar::from_raw(damping)).unwrap();
        let mut pose = Pose::new(Vec3::from_raw(UNIT, UNIT, UNIT), Quat::identity());
        body.step(&mut pose, &weightless(), Scalar::from_raw(20_000));
        assert_eq!(triple(body.linear_velocity()), (0, 0, 0));
        assert_eq!(triple(body.angular_velocity()), (0, 0, 0));
        assert_eq!(triple(pose.translation), (UNIT, UNIT, UNIT));
        assert_eq!(quadruple(pose.rotation), (0, 0, 0, UNIT));
    }
}

#[test]
fn reset_brings_a_moving_body_to_rest_at_the_origin() {
    let mut body = Rigidbody::default();
    body.set_linear_velocity(Vec3::from_raw(UNIT, -2 * UNIT, 3 * UNIT));
    body.set_angular_velocity(Vec3::from_raw(0, UNIT, 0));
    let mut pose = Pose::new(
        Vec3::from_raw(4 * UNIT, 5 * UNIT, 6 * UNIT),
        Quat::from_raw(0, 0, 707_106, 707_106),
    );
    body.add_force(&pose, Vec3::from_raw(UNIT, 0, 0), Vec3::from_raw(0, UNIT, 0), Scalar::zero());
    body.reset(&mut pose);
    assert_eq!(triple(body.linear_velocity()), (0, 0, 0));
    assert_eq!(triple(body.angular_velocity()), (0, 0, 0));
    assert_eq!(triple(body.force()), (0, 0, 0));
    assert_eq!(triple(body.torque()), (0, 0, 0));
    assert_eq!(triple(pose.translation), (0, 0, 0));
    assert_eq!(quadruple(pose.rotation), (0, 0, 0, UNIT));
    assert_eq!(body.mass().raw(), UNIT);
    assert_eq!(body.linear_damping().raw(), 500_000);
}

#[test]
fn reset_twice_is_reset_once() {
    let mut body = Rigidbody::default();
    body.set_linear_velocity(Vec3::from_raw(UNIT, -2 * UNIT, 3 * UNIT));
    let mut pose = Pose::new(Vec3::from_raw(4 * UNIT, 5 * UNIT, 6 * UNIT), Quat::identity());
    body.reset(&mut pose);
    let once = (
        triple(body.linear_velocity()),
        triple(body.angular_velocity()),
        triple(body.force()),
        triple(body.torque()),
        triple(pose.translation),
        quadruple(pose.rotation),
        body.mass().raw(),
    );
    body.reset(&mut pose);
    let twice = (
        triple(body.linear_velocity()),
        triple(body.angular_velocity()),
        triple(body.force()),
        triple(body.torque()),
        triple(pose.translation),
        quadruple(pose.rotation),
        body.mass().raw(),
    );
    assert_eq!(once, twice);
}

#[test]
fn orientation_keeps_unit_length_over_many_steps() {
    let mut body = undamped();
    body.set_angular_velocity(Vec3::from_raw(0, 0, 3 * UNIT));
    let mut pose = Pose::origin();
    let settings = weightless();
    body.step(&mut pose, &settings, Scalar::from_raw(20_000));
    assert_eq!(quadruple(pose.rotation), (0, 0, 29_986, 999_550));
    for _ in 1..200 {
        body.step(&mut pose, &settings, Scalar::from_raw(20_000));
        let n = squared_norm(pose.rotation);
        assert!(n >= 999_995 * 999_995 && n <= 1_000_001 * 1_000_001);
    }
    assert_eq!(quadruple(pose.rotation), (0, 0, -281_262, 959_630));
}

#[test]
fn drag_alone_never_speeds_a_body_up() {
    let mut body = Rigidbody::default();
    body.set_linear_damping(Scalar::from_int(2)).unwrap();
    body.set_linear_velocity(Vec3::from_raw(3 * UNIT, -UNIT, 2 * UNIT));
    let mut pose = Pose::origin();
    let settings = weightless();
    body.step(&mut pose, &settings, Scalar::from_raw(20_000));
    assert_eq!(triple(body.linear_velocity()), (2_880_000, -960_000, 1_920_000));
    assert_eq!(triple(pose.translation), (57_600, -19_200, 38_400));
    let mut speed = squared(body.linear_velocity());
    for _ in 0..300 {
        body.step(&mut pose, &settings, Scalar::from_raw(20_000));
        let next = squared(body.linear_velocity());
        assert!(next <= speed);
        speed = next;
    }
}

#[test]
fn drag_stronger_than_two_masses_per_step_overshoots() {
    let mut body = Rigidbody::default();
    body.set_linear_damping(Scalar::from_int(200)).unwrap();
    body.set_linear_velocity(Vec3::from_raw(UNIT, 0, 0));
    let mut pose = Pose::origin();
    body.step(&mut pose, &weightless(), Scalar::from_raw(20_000));
    assert_eq!(triple(body.linear_velocity()), (-3 * UNIT, 0, 0));
}

#[test]
fn speed_never_exceeds_the_limit() {
    let mut body = undamped();
    let mut pose = Pose::origin();
    body.add_force(
        &pose,
        Vec3::zero(),
        Vec3::from_raw(900_000 * UNIT, -900_000 * UNIT, 100 * UNIT),
        Scalar::from_raw(20_000),
    );
    body.step(&mut pose, &PumaPhysicsSettings::new(), Scalar::from_raw(20_000));
    assert_eq!(triple(body.linear_velocity()), (3_535_514, -3_535_553, 392));
    assert!(squared(body.linear_velocity()) <= 25 * (UNIT as i128) * (UNIT as i128));
    assert_eq!(triple(body.force()), (0, 0, 0));
}

#[test]
fn frame_time_is_cut_to_the_configured_step() {
    let settings = PumaPhysicsSettings::new();
    assert_eq!(settings.step_time(Scalar::one()).raw(), 20_000);
    assert_eq!(settings.step_time(Scalar::from_raw(10_000)).raw(), 10_000);
    let mut body = undamped();
    let mut pose = Pose::origin();
    body.step(&mut pose, &settings, Scalar::one());
    assert_eq!(triple(body.linear_velocity()), (0, -196_000, 0));
    assert_eq!(triple(pose.translation), (0, -3_920, 0));
    let mut slow = undamped();
    let mut slow_pose = Pose::origin();
    slow.step(&mut slow_pose, &settings, Scalar::from_raw(10_000));
    assert_eq!(triple(slow.linear_velocity()), (0, -98_000, 0));
    assert_eq!(triple(slow_pose.translation), (0, -980, 0));
}

#[test]
fn kinematic_body_is_never_integrated() {
    let mut body = Rigidbody::new();
    assert_eq!(body.mass().raw(), 0);
    body.set_linear_velocity(Vec3::from_raw(UNIT, 0, 0));
    let mut pose = Pose::new(Vec3::from_raw(UNIT, UNIT, UNIT), Quat::identity());
    body.add_force(&pose, Vec3::zero(), Vec3::from_raw(UNIT, UNIT, UNIT), Scalar::zero());
    body.step(&mut pose, &PumaPhysicsSettings::new(), Scalar::from_raw(20_000));
    assert_eq!(triple(body.linear_velocity()), (UNIT, 0, 0));
    assert_eq!(triple(body.force()), (0, 0, 0));
    assert_eq!(triple(body.torque()), (0, 0, 0));
    assert_eq!(triple(pose.translation), (UNIT, UNIT, UNIT));
    assert_eq!(quadruple(pose.rotation), (0, 0, 0, UNIT));
}

#[test]
fn torque_turns_the_body_through_its_inverse_inertia() {
    let mut body = undamped();
    body.set_inertia(Mat3::from_diagonal(Vec3::from_raw(166_666, 166_666, 166_666)));
    assert_eq!(triple(body.inertia_inverse().z_axis), (0, 0, 6_000_024));
    body.set_inertia(Mat3::from_diagonal(Vec3::from_raw(1_000, 2_000, 4_000)));
    assert_eq!(triple(body.inertia_inverse().x_axis), (1_000 * UNIT, 0, 0));
    let mut turning = undamped();
    turning.set_angular_velocity(Vec3::from_raw(0, 0, 2 * UNIT));
    turning.set_angular_damping(Scalar::from_raw(500_000)).unwrap();
    let mut pose = Pose::origin();
    turning.step(&mut pose, &weightless(), Scalar::from_raw(20_000));
    assert_eq!(triple(turning.angular_velocity()), (0, 0, 1_980_000));
    assert_eq!(quadruple(pose.rotation), (0, 0, 19_796, 999_804));
}

#[test]
fn inertia_without_inverse_makes_a_body_that_does_not_turn() {
    let mut body = undamped();
    body.set_inertia(Mat3::zero());
    assert_eq!(triple(body.inertia_inverse().x_axis), (0, 0, 0));
    assert_eq!(triple(body.inertia_inverse().y_axis), (0, 0, 0));
    assert_eq!(triple(body.inertia_inverse().z_axis), (0, 0, 0));
    let mut pose = Pose::origin();
    body.add_force(&pose, Vec3::from_raw(UNIT, 0, 0), Vec3::from_raw(0, UNIT, 0), Scalar::zero());
    assert_eq!(triple(body.torque()), (0, 0, UNIT));
    body.step(&mut pose, &weightless(), Scalar::from_raw(20_000));
    assert_eq!(triple(body.angular_velocity()), (0, 0, 0));
    assert_eq!(quadruple(pose.rotation), (0, 0, 0, UNIT));
}

#[test]
fn applied_force_accumulates_with_its_torque() {
    let mut body = Rigidbody::default();
    let pose = Pose::new(Vec3::from_raw(UNIT, 2 * UNIT, 3 * UNIT), Quat::identity());
    body.add_force(
        &pose,
        Vec3::from_raw(UNIT, 0, 0),
        Vec3::from_raw(0, UNIT, 0),
        Scalar::from_raw(20_000),
    );
    assert_eq!(triple(body.force()), (0, UNIT, 0));
    assert_eq!(triple(body.torque()), (0, 0, UNIT));
    body.add_force(
        &pose,
        Vec3::from_raw(UNIT, 0, 0),
        Vec3::from_raw(0, UNIT, 0),
        Scalar::from_raw(20_000),
    );
    assert_eq!(triple(body.force()), (0, 2 * UNIT, 0));
    assert_eq!(triple(body.torque()), (0, 0, 2 * UNIT));
}

#[test]
fn applied_force_uses_the_predicted_orientation() {
    let mut body = Rigidbody::default();
    body.set_angular_velocity(Vec3::from_raw(0, 0, 2 * UNIT));
    let pose = Pose::origin();
    body.add_force(
        &pose,
        Vec3::from_raw(UNIT, 0, 0),
        Vec3::from_raw(0, UNIT, 0),
        Scalar::from_raw(20_000),
    );
    assert_eq!(triple(body.force()), (0, UNIT, 0));
    assert_eq!(triple(body.torque()), (0, 0, 999_200));
}

#[test]
fn negative_mass_and_damping_are_refused() {
    let mut body = Rigidbody::default();
    assert_eq!(body.set_mass(Scalar::from_raw(-1)), Err(PhysicsError::NegativeMass));
    assert_eq!(body.mass().raw(), UNIT);
    assert_eq!(body.set_linear_damping(Scalar::from_raw(-1)), Err(PhysicsError::NegativeDamping));
    assert_eq!(body.linear_damping().raw(), 500_000);
    assert_eq!(body.set_angular_damping(Scalar::from_raw(-1)), Err(PhysicsError::NegativeDamping));
    assert_eq!(body.angular_damping().raw(), 500_000);
    assert_eq!(body.set_mass(Scalar::zero()), Ok(()));
    assert_eq!(body.mass().raw(), 0);
    assert_eq!(body.set_mass(Scalar::from_int(3)), Ok(()));
    assert_eq!(body.mass().raw(), 3 * UNIT);
    assert_eq!(body.set_linear_damping(Scalar::zero()), Ok(()));
    assert_eq!(body.set_angular_damping(Scalar::from_int(2)), Ok(()));
    assert_eq!(body.angular_damping().raw(), 2 * UNIT);
}

#[test]
fn new_and_default_bodies() {
    let empty = Rigidbody::new();
    assert_eq!(empty.mass().raw(), 0);
    assert_eq!(empty.linear_damping().raw(), 0);
    assert_eq!(empty.angular_damping().raw(), 0);
    assert_eq!(triple(empty.inertia_inverse().x_axis), (UNIT, 0, 0));
    assert_eq!(triple(empty.linear_velocity()), (0, 0, 0));
    let standard = Rigidbody::default();
    assert_eq!(standard.mass().raw(), UNIT);
    assert_eq!(standard.linear_damping().raw(), 500_000);
    assert_eq!(standard.angular_damping().raw(), 500_000);
    assert_eq!(triple(standard.inertia_inverse().y_axis), (0, UNIT, 0));
    assert_eq!(triple(standard.angular_velocity()), (0, 0, 0));
}

#[test]
fn cuboid_inertia_tensor() {
    let shape = CuboidCollider::new(Scalar::from_int(1), Scalar::from_int(2), Scalar::from_int(3))
        .unwrap();
    assert_eq!(triple(shape.size()), (UNIT, 2 * UNIT, 3 * UNIT));
    let tensor = shape.get_inertia(Scalar::from_int(12)).unwrap();
    assert_eq!(triple(tensor.x_axis), (13 * UNIT, 0, 0));
    assert_eq!(triple(tensor.y_axis), (0, 10 * UNIT, 0));
    assert_eq!(triple(tensor.z_axis), (0, 0, 5 * UNIT));
    let massless = shape.get_inertia(Scalar::zero()).unwrap();
    assert_eq!(triple(massless.x_axis), (0, 0, 0));
    assert!(massless.inverse().is_none());
    assert_eq!(
        cuboid_inertia(Scalar::one(), Scalar::one(), Scalar::one()).raw(),
        166_666
    );
}

#[test]
fn collider_refuses_negative_mass_and_flat_shapes() {
    let shape = CuboidCollider::new(Scalar::one(), Scalar::one(), Scalar::one()).unwrap();
    assert_eq!(shape.get_inertia(Scalar::from_raw(-1)).err(), Some(PhysicsError::NegativeMass));
    assert_eq!(
        CuboidCollider::new(Scalar::zero(), Scalar::one(), Scalar::one()).err(),
        Some(PhysicsError::NonPositiveSize)
    );
    assert_eq!(
        CuboidCollider::new(Scalar::one(), Scalar::from_raw(-1), Scalar::one()).err(),
        Some(PhysicsError::NonPositiveSize)
    );
    assert_eq!(
        CuboidCollider::new(Scalar::one(), Scalar::one(), Scalar::zero()).err(),
        Some(PhysicsError::NonPositiveSize)
    );
}

#[test]
fn cuboid_body_has_mass_from_volume_and_density() {
    let body = Rigidbody::cuboid(Vec3::from_raw(UNIT, 2 * UNIT, 3 * UNIT), Scalar::from_int(2))
        .unwrap();
    assert_eq!(body.mass().raw(), 12 * UNIT);
    assert_eq!(triple(body.inertia_inverse().x_axis), (76_923, 0, 0));
    assert_eq!(triple(body.inertia_inverse().y_axis), (0, 100_000, 0));
    assert_eq!(triple(body.inertia_inverse().z_axis), (0, 0, 200_000));
    assert_eq!(body.linear_damping().raw(), 500_000);
    assert_eq!(body.angular_damping().raw(), 500_000);
    let massless = Rigidbody::cuboid(Vec3::from_raw(UNIT, UNIT, UNIT), Scalar::zero()).unwrap();
    assert_eq!(massless.mass().raw(), 0);
    assert_eq!(triple(massless.inertia_inverse().x_axis), (0, 0, 0));
    assert_eq!(
        Rigidbody::cuboid(Vec3::from_raw(UNIT, 0, UNIT), Scalar::one()).err(),
        Some(PhysicsError::NonPositiveSize)
    );
    assert_eq!(
        Rigidbody::cuboid(Vec3::from_raw(UNIT, UNIT, UNIT), Scalar::from_raw(-1)).err(),
        Some(PhysicsError::NegativeMass)
    );
}

#[test]
fn gravity_phase_accelerates_every_body() {
    let mut moving = Rigidbody::new();
    moving.set_linear_velocity(Vec3::from_raw(UNIT, 0, 0));
    let mut bodies = vec![Rigidbody::new(), moving];
    pose_integrate_phase(&PumaPhysicsSettings::new(), &mut bodies);
    assert_eq!(bodies.len(), 2);
    assert_eq!(triple(bodies[0].linear_velocity()), (0, -196_000, 0));
    assert_eq!(triple(bodies[1].linear_velocity()), (UNIT, -196_000, 0));
}
