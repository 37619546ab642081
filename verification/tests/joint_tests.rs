use puma_physics::distance_joint::DistanceJoint;
use puma_physics::error::PhysicsError;
use puma_physics::quat::Quat;
use puma_physics::rigidbody::{Pose, Rigidbody};
use puma_physics::scalar::Scalar;
use puma_physics::simulation::{find_actor, Actor, PumaPhysicsSettings, World};
use puma_physics::spring::spring;
use puma_physics::vec3::Vec3;

const WHOLE: i64 = 1_000_000;

fn parts(v: Vec3) -> (i64, i64, i64) {
    (v.x.raw(), v.y.raw(), v.z.raw())
}

fn at(x: i64, y: i64, z: i64) -> Pose {
    Pose::new(Vec3::from_raw(x, y, z), Quat::identity())
}

fn link(actor0: Option<u64>, actor1: Option<u64>, frame0: Vec3, frame1: Vec3) -> DistanceJoint {
    DistanceJoint::new(
        actor0,
        actor1,
        frame0,
        frame1,
        Scalar::zero(),
        Scalar::one(),
        Scalar::from_int(10),
        Scalar::from_int(10),
    ).unwrap()
}

#[test]
fn stretched_joint_pulls_its_ends_together() {
    let (force0, force1) = spring(
        Vec3::zero(),
        Vec3::from_raw(2 * WHOLE, 0, 0),
        Vec3::zero(),
        Vec3::zero(),
        Scalar::from_int(10),
        Scalar::from_int(10),
        Scalar::one(),
        Scalar::zero(),
        Scalar::from_raw(20_000),
    );
    assert_eq!(parts(force0), (30 * WHOLE, 0, 0));
    assert_eq!(parts(force1), (-30 * WHOLE, 0, 0));
}

#[test]
fn joint_within_its_band_exerts_no_force() {
    let squared_distance = Vec3::from_raw(707_106, 0, 0).length_squared().raw();
    assert_eq!(squared_distance, 499_998);
    let (force0, force1) = spring(
        Vec3::zero(),
        Vec3::from_raw(707_106, 0, 0),
        Vec3::from_raw(0, 3 * WHOLE, 0),
        Vec3::from_raw(0, -2 * WHOLE, 0),
        Scalar::from_int(10),
        Scalar::from_int(10),
        Scalar::one(),
        Scalar::zero(),
        Scalar::zero(),
    );
    assert_eq!(parts(force0), (0, 0, 0));
    assert_eq!(parts(force1), (0, 0, 0));
}

#[test]
fn compressed_joint_pushes_its_ends_apart() {
    let (force0, force1) = spring(
        Vec3::zero(),
        Vec3::from_raw(WHOLE, 0, 0),
        Vec3::zero(),
        Vec3::zero(),
        Scalar::from_int(10),
        Scalar::from_int(10),
        Scalar::from_int(9),
        Scalar::from_int(4),
        Scalar::from_raw(20_000),
    );
    assert_eq!(parts(force0), (-30 * WHOLE, 0, 0));
    assert_eq!(parts(force1), (30 * WHOLE, 0, 0));
}

#[test]
fn coincident_ends_fall_back_to_the_up_direction() {
    let (force0, force1) = spring(
        Vec3::from_raw(WHOLE, WHOLE, WHOLE),
        Vec3::from_raw(WHOLE, WHOLE, WHOLE),
        Vec3::zero(),
        Vec3::zero(),
        Scalar::from_int(10),
        Scalar::from_int(10),
        Scalar::from_int(9),
        Scalar::from_int(4),
        Scalar::from_raw(20_000),
    );
    assert_eq!(parts(force0), (0, -40 * WHOLE, 0));
    assert_eq!(parts(force1), (0, 40 * WHOLE, 0));
}

#[test]
fn damping_opposes_the_closing_of_a_deformed_joint() {
    let (force0, force1) = spring(
        Vec3::zero(),
        Vec3::from_raw(2 * WHOLE, 0, 0),
        Vec3::from_raw(WHOLE, 0, 0),
        Vec3::zero(),
        Scalar::from_int(10),
        Scalar::from_int(10),
        Scalar::one(),
        Scalar::zero(),
        Scalar::from_raw(20_000),
    );
    assert_eq!(parts(force0), (19_204_000, 0, 0));
    assert_eq!(parts(force1), (-19_204_000, 0, 0));
    let (still0, still1) = spring(
        Vec3::zero(),
        Vec3::from_raw(2 * WHOLE, 0, 0),
        Vec3::from_raw(WHOLE, 0, 0),
        Vec3::zero(),
        Scalar::from_int(10),
        Scalar::from_int(10),
        Scalar::one(),
        Scalar::zero(),
        Scalar::zero(),
    );
    assert_eq!(parts(still0), (20 * WHOLE, 0, 0));
    assert_eq!(parts(still1), (-20 * WHOLE, 0, 0));
}

#[test]
fn forces_on_the_two_ends_are_equal_and_opposite() {
    let cases = [
        (Vec3::from_raw(123_456, -987_654, 55), Vec3::from_raw(-4_000_001, 2, 7_777_777)),
        (Vec3::from_raw(0, 0, 0), Vec3::from_raw(1, 1, 1)),
        (Vec3::from_raw(-9 * WHOLE, 3, 2 * WHOLE), Vec3::from_raw(9 * WHOLE, -3, -2 * WHOLE)),
    ];
    for (a, b) in cases {
        let (force0, force1) = spring(
            a,
            b,
            Vec3::from_raw(333_333, -1, 2 * WHOLE),
            Vec3::from_raw(-WHOLE, 7, 1),
            Scalar::from_raw(7_654_321),
            Scalar::from_raw(1_234_567),
            Scalar::from_raw(900_000),
            Scalar::from_raw(100_000),
            Scalar::from_raw(16_667),
        );
        assert_eq!(parts(force1), parts(force0.neg()));
    }
}

#[test]
fn joint_construction_refuses_bad_configuration() {
    let build = |min: i64, max: i64, stiffness: i64, damping: i64| {
        DistanceJoint::new(
            None,
            None,
            Vec3::zero(),
            Vec3::zero(),
            Scalar::from_raw(min),
            Scalar::from_raw(max),
            Scalar::from_raw(stiffness),
            Scalar::from_raw(damping),
        )
    };
    assert_eq!(build(2, 1, 1, 1).err(), Some(PhysicsError::InvertedDistanceBand));
    assert_eq!(build(1, 2, -1, 1).err(), Some(PhysicsError::NegativeStiffness));
    assert_eq!(build(1, 2, 1, -1).err(), Some(PhysicsError::NegativeDamping));
    assert_eq!(build(2, 1, -1, -1).err(), Some(PhysicsError::InvertedDistanceBand));
    assert!(build(1, 1, 0, 0).is_ok());
}

#[test]
fn joint_getters_and_default() {
    let joint = DistanceJoint::new(
        Some(3),
        None,
        Vec3::from_raw(1, 2, 3),
        Vec3::from_raw(4, 5, 6),
        Scalar::from_raw(7),
        Scalar::from_raw(8),
        Scalar::from_raw(9),
        Scalar::from_raw(10),
    ).unwrap();
    assert_eq!(joint.actor0(), Some(3));
    assert_eq!(joint.actor1(), None);
    assert_eq!(parts(joint.local_frame0()), (1, 2, 3));
    assert_eq!(parts(joint.local_frame1()), (4, 5, 6));
    assert_eq!(joint.min_squared_distance().raw(), 7);
    assert_eq!(joint.max_squared_distance().raw(), 8);
    assert_eq!(joint.stiffness().raw(), 9);
    assert_eq!(joint.damping().raw(), 10);
    let standard = DistanceJoint::default();
    assert_eq!(standard.actor0(), None);
    assert_eq!(standard.actor1(), None);
    assert_eq!(standard.min_squared_distance().raw(), 0);
    assert_eq!(standard.max_squared_distance().raw(), WHOLE);
    assert_eq!(standard.stiffness().raw(), 10 * WHOLE);
    assert_eq!(standard.damping().raw(), 10 * WHOLE);
}

#[test]
fn joint_resolves_its_ends_through_the_actor_table() {
    let actors = vec![
        Some(Actor { pose: at(0, 0, 0), rigidbody: Some(Rigidbody::default()) }),
        None,
        Some(Actor { pose: at(2 * WHOLE, 0, 0), rigidbody: None }),
    ];
    let between = link(Some(0), Some(2), Vec3::zero(), Vec3::zero());
    let (force0, force1) = between.resolve(&actors, Scalar::from_raw(20_000));
    assert_eq!(parts(force0), (30 * WHOLE, 0, 0));
    assert_eq!(parts(force1), (-30 * WHOLE, 0, 0));
    let anchored = link(Some(0), None, Vec3::from_raw(0, WHOLE, 0), Vec3::from_raw(3 * WHOLE, WHOLE, 0));
    let (pull, reaction) = anchored.resolve(&actors, Scalar::from_raw(20_000));
    assert_eq!(parts(pull), (80 * WHOLE, 0, 0));
    assert_eq!(parts(reaction), (-80 * WHOLE, 0, 0));
    assert!(find_actor(&actors, 1).is_none());
    assert!(find_actor(&actors, 3).is_none());
    assert!(find_actor(&actors, u64::MAX).is_none());
    assert!(find_actor(&actors, 2).is_some());
}

#[test]
fn dangling_actor_is_a_fixed_anchor_at_the_origin() {
    let actors = vec![
        Some(Actor { pose: at(2 * WHOLE, 0, 0), rigidbody: Some(Rigidbody::default()) }),
        None,
    ];
    for missing in [1u64, 7u64] {
        let joint = link(Some(0), Some(missing), Vec3::zero(), Vec3::from_raw(5 * WHOLE, 0, 0));
        let (force0, force1) = joint.resolve(&actors, Scalar::from_raw(20_000));
        assert_eq!(parts(force0), (-30 * WHOLE, 0, 0));
        assert_eq!(parts(force1), (30 * WHOLE, 0, 0));
    }
}

#[test]
fn world_tick_resolves_joints_before_it_steps_bodies() {
    let mut world = World::new();
    let first = world.spawn(Actor { pose: at(0, 0, 0), rigidbody: Some(Rigidbody::default()) });
    let second = world.spawn(
        Actor { pose: at(2 * WHOLE, 0, 0), rigidbody: Some(Rigidbody::default()) },
    );
    assert_eq!((first, second), (0, 1));
    assert_eq!(world.actor_count(), 2);
    world.add_joint(link(Some(first), Some(second), Vec3::zero(), Vec3::zero()));
    let settings = PumaPhysicsSettings::new();
    world.update_distance_joint(&settings, Scalar::from_raw(20_000));
    let pulled = world.actor(first).unwrap().rigidbody.unwrap();
    assert_eq!(parts(pulled.force()), (30 * WHOLE, 0, 0));
    assert_eq!(parts(pulled.torque()), (0, 0, 0));
    let other = world.actor(second).unwrap().rigidbody.unwrap();
    assert_eq!(parts(other.force()), (-30 * WHOLE, 0, 0));
    world.update_rigidbody(&settings, Scalar::from_raw(20_000));
    let a = world.actor(first).unwrap();
    let b = world.actor(second).unwrap();
    assert_eq!(parts(a.rigidbody.unwrap().linear_velocity()), (600_000, -196_000, 0));
    assert_eq!(parts(a.pose.translation), (12_000, -3_920, 0));
    assert_eq!(parts(b.rigidbody.unwrap().linear_velocity()), (-600_000, -196_000, 0));
    assert_eq!(parts(b.pose.translation), (1_988_000, -3_920, 0));
    assert_eq!(parts(a.rigidbody.unwrap().force()), (0, 0, 0));
}

#[test]
fn world_tick_is_joints_then_bodies() {
    let build = || {
        let mut world = World::new();
        let first = world.spawn(Actor { pose: at(0, 0, 0), rigidbody: Some(Rigidbody::default()) });
        let second = world.spawn(
            Actor { pose: at(2 * WHOLE, 0, 0), rigidbody: Some(Rigidbody::default()) },
        );
        world.add_joint(link(Some(first), Some(second), Vec3::zero(), Vec3::zero()));
        world
    };
    let settings = PumaPhysicsSettings::new();
    let mut ticked = build();
    ticked.tick(&settings, Scalar::from_raw(20_000));
    let mut phased = build();
    phased.update_distance_joint(&settings, Scalar::from_raw(20_000));
    phased.update_rigidbody(&settings, Scalar::from_raw(20_000));
    for id in 0..2u64 {
        let a = ticked.actor(id).unwrap();
        let b = phased.actor(id).unwrap();
        assert_eq!(parts(a.pose.translation), parts(b.pose.translation));
        assert_eq!(
            parts(a.rigidbody.unwrap().linear_velocity()),
            parts(b.rigidbody.unwrap().linear_velocity())
        );
    }
    assert_eq!(parts(ticked.actor(0).unwrap().pose.translation), (12_000, -3_920, 0));
}

#[test]
fn joint_attached_off_centre_turns_the_body() {
    let mut world = World::new();
    let body = world.spawn(Actor { pose: at(0, 0, 0), rigidbody: Some(Rigidbody::default()) });
    world.add_joint(
        link(Some(body), None, Vec3::from_raw(0, WHOLE, 0), Vec3::from_raw(3 * WHOLE, WHOLE, 0)),
    );
    world.update_distance_joint(&PumaPhysicsSettings::new(), Scalar::from_raw(20_000));
    let pulled = world.actor(body).unwrap().rigidbody.unwrap();
    assert_eq!(parts(pulled.force()), (80 * WHOLE, 0, 0));
    assert_eq!(parts(pulled.torque()), (0, 0, -80 * WHOLE));
}

#[test]
fn world_reset_and_despawn() {
    let mut world = World::new();
    let mut moving = Rigidbody::default();
    moving.set_linear_velocity(Vec3::from_raw(WHOLE, 0, 0));
    let first = world.spawn(Actor { pose: at(WHOLE, WHOLE, WHOLE), rigidbody: Some(moving) });
    let scenery = world.spawn(Actor { pose: at(5 * WHOLE, 0, 0), rigidbody: None });
    world.reset();
    let rested = world.actor(first).unwrap();
    assert_eq!(parts(rested.pose.translation), (0, 0, 0));
    assert_eq!(parts(rested.rigidbody.unwrap().linear_velocity()), (0, 0, 0));
    assert_eq!(parts(world.actor(scenery).unwrap().pose.translation), (5 * WHOLE, 0, 0));
    world.reset();
    assert_eq!(parts(world.actor(first).unwrap().pose.translation), (0, 0, 0));
    world.despawn(first);
    assert!(world.actor(first).is_none());
    assert!(world.actor(scenery).is_some());
    world.despawn(99);
    assert_eq!(world.actor_count(), 2);
    world.add_joint(link(Some(first), Some(scenery), Vec3::zero(), Vec3::zero()));
    world.tick(&PumaPhysicsSettings::new(), Scalar::from_raw(20_000));
    assert_eq!(parts(world.actor(scenery).unwrap().pose.translation), (5 * WHOLE, 0, 0));
}

#[test]
fn joints_on_one_body_add_their_forces() {
    let mut world = World::new();
    let body = world.spawn(Actor { pose: at(0, 0, 0), rigidbody: Some(Rigidbody::default()) });
    world.add_joint(link(Some(body), None, Vec3::zero(), Vec3::from_raw(2 * WHOLE, 0, 0)));
    world.add_joint(link(None, Some(body), Vec3::from_raw(0, 3 * WHOLE, 0), Vec3::zero()));
    world.update_distance_joint(&PumaPhysicsSettings::new(), Scalar::from_raw(20_000));
    let pulled = world.actor(body).unwrap().rigidbody.unwrap();
    assert_eq!(parts(pulled.force()), (30 * WHOLE, 80 * WHOLE, 0));
    assert_eq!(parts(pulled.torque()), (0, 0, 0));
}
