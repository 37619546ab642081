//! Rigid-body state and its semi-implicit Euler integrator.

use vstd::prelude::*;
use crate::collider::{Collider, CuboidCollider, CuboidModel};
use crate::error::PhysicsError;
use crate::mat3::{lemma_flat_diagonal_has_no_inverse, Mat3, M3};
use crate::quat::{lemma_normalize_is_unit, Quat, Q4};
use crate::scalar::{
    abs, fx_add, fx_div, fx_mul, lemma_fx_div_shrinks, lemma_fx_mul_shrinks,
    lemma_fx_mul_symmetric, lemma_mul_bound, lemma_scale_squared, lemma_tdiv_abs, sat, tdiv, tquot,
    Scalar, LIMIT, SCALE,
};
use crate::simulation::{PumaPhysicsSettings, SettingsModel};
use crate::vec3::{
    lemma_clamp_length_bound, lemma_clamp_length_shrinks, lemma_square_monotone, Vec3, V3,
};

verus! {

/// The mathematical value of a [`Pose`].
pub struct PoseModel {
    pub translation: V3,
    pub rotation: Q4,
}

impl PoseModel {
    /// The canonical pose: at the origin, not rotated.
    pub open spec fn origin() -> PoseModel {
        PoseModel { translation: V3::zero(), rotation: Q4::identity() }
    }
}

/// World position and orientation of an entity. The host owns it; the
/// integrator updates it in place.
#[derive(Clone, Copy, Debug)]
pub struct Pose {
    pub translation: Vec3,
    pub rotation: Quat,
}

impl View for Pose {
    type V = PoseModel;

    open spec fn view(&self) -> PoseModel {
        PoseModel { translation: self.translation@, rotation: self.rotation@ }
    }
}

impl Pose {
    /// The pose with the given position and orientation.
    pub fn new(translation: Vec3, rotation: Quat) -> (r: Pose)
        ensures
            r@ == (PoseModel { translation: translation@, rotation: rotation@ }),
    {
        Pose { translation, rotation }
    }

    /// The canonical pose: at the origin, not rotated.
    pub fn origin() -> (r: Pose)
        ensures
            r@ == PoseModel::origin(),
    {
        Pose { translation: Vec3::zero(), rotation: Quat::identity() }
    }
}

/// The mathematical value of a [`Rigidbody`].
pub struct BodyModel {
    pub mass: int,
    pub inertia_inverse: M3,
    pub linear_velocity: V3,
    pub angular_velocity: V3,
    pub force: V3,
    pub torque: V3,
    pub linear_damping: int,
    pub angular_damping: int,
}

/// The inverse of an inertia tensor. A tensor without an inverse, as that of
/// a massless body, stands for infinite inertia: its "inverse" is zero, and
/// no torque turns the body.
pub open spec fn inverse_inertia(inertia: M3) -> M3 {
    if inertia.invertible() {
        inertia.inverse()
    } else {
        M3::zero()
    }
}

/// Mass of a cuboid of dimensions `size` and density `density`: the volume,
/// rounded once, times the density.
pub open spec fn cuboid_mass(size: V3, density: int) -> int {
    fx_mul(sat(tdiv(size.x * size.y * size.z, SCALE * SCALE)), density)
}

impl BodyModel {
    /// Whether the mass and the damping coefficients are non-negative.
    pub open spec fn wf(self) -> bool {
        self.mass >= 0 && self.linear_damping >= 0 && self.angular_damping >= 0
    }

    /// Whether the body is kinematic: massless, and so never integrated.
    pub open spec fn is_kinematic(self) -> bool {
        self.mass == 0
    }

    /// A massless body at rest with no damping and an identity inverse
    /// inertia.
    pub open spec fn empty() -> BodyModel {
        BodyModel {
            mass: 0,
            inertia_inverse: M3::identity(),
            linear_velocity: V3::zero(),
            angular_velocity: V3::zero(),
            force: V3::zero(),
            torque: V3::zero(),
            linear_damping: 0,
            angular_damping: 0,
        }
    }

    /// A body of mass one at rest, with an identity inverse inertia and
    /// damping coefficients of one half.
    pub open spec fn standard() -> BodyModel {
        BodyModel {
            mass: SCALE as int,
            inertia_inverse: M3::identity(),
            linear_velocity: V3::zero(),
            angular_velocity: V3::zero(),
            force: V3::zero(),
            torque: V3::zero(),
            linear_damping: 500_000,
            angular_damping: 500_000,
        }
    }

    /// The standard body with the mass and inertia of a uniform cuboid.
    pub open spec fn cuboid(size: V3, density: int) -> BodyModel {
        let mass = cuboid_mass(size, density);
        let shape = CuboidModel { width: size.x, height: size.y, depth: size.z };
        BodyModel {
            mass,
            inertia_inverse: inverse_inertia(shape.inertia(mass)),
            ..BodyModel::standard()
        }
    }

    /// The body after the force `force` was applied at the body-space point
    /// `attach`. The point is carried into world space by the orientation
    /// predicted `horizon` ahead; the force and its torque about the centre
    /// are added to the accumulators.
    pub open spec fn add_force(self, pose: PoseModel, attach: V3, force: V3, horizon: int)
        -> BodyModel {
        let arm = pose.rotation.integrate(self.angular_velocity, horizon).rotate(attach);
        BodyModel {
            force: self.force.add(force),
            torque: self.torque.add(arm.cross(force)),
            ..self
        }
    }

    /// Total force of one step: accumulated force, weight and linear drag.
    pub open spec fn net_force(self, gravity: V3) -> V3 {
        self.force.add(gravity.scale(self.mass)).add(
            self.linear_velocity.scale(self.linear_damping).neg(),
        )
    }

    /// Total torque of one step: accumulated torque and angular drag.
    pub open spec fn net_torque(self) -> V3 {
        self.torque.add(self.angular_velocity.scale(self.angular_damping).neg())
    }

    /// Linear velocity after a step of `dt`: advanced by the acceleration,
    /// then limited to the speed `max_speed`.
    pub open spec fn next_linear_velocity(self, gravity: V3, max_speed: int, dt: int) -> V3 {
        self.linear_velocity.add(self.net_force(gravity).div(self.mass).scale(dt)).clamp_length(
            max_speed,
        )
    }

    /// Angular velocity after a step of `dt`.
    pub open spec fn next_angular_velocity(self, dt: int) -> V3 {
        self.angular_velocity.add(self.inertia_inverse.mul_vec3(self.net_torque()).scale(dt))
    }

    /// The body after one step. A kinematic body keeps its velocities; every
    /// body ends with empty accumulators.
    pub open spec fn step(self, settings: SettingsModel, delta_time: int) -> BodyModel {
        let dt = settings.step_time(delta_time);
        if self.is_kinematic() {
            BodyModel { force: V3::zero(), torque: V3::zero(), ..self }
        } else {
            BodyModel {
                linear_velocity: self.next_linear_velocity(
                    settings.gravity_acceleration,
                    settings.max_speed,
                    dt,
                ),
                angular_velocity: self.next_angular_velocity(dt),
                force: V3::zero(),
                torque: V3::zero(),
                ..self
            }
        }
    }

    /// The pose of the body after one step. That of a kinematic body stays
    /// as it is; another moves by its new velocity and turns by its new
    /// angular velocity.
    pub open spec fn step_pose(self, pose: PoseModel, settings: SettingsModel, delta_time: int)
        -> PoseModel {
        let dt = settings.step_time(delta_time);
        if self.is_kinematic() {
            pose
        } else {
            let next = self.step(settings, delta_time);
            PoseModel {
                translation: pose.translation.add(next.linear_velocity.scale(dt)),
                rotation: pose.rotation.integrate(next.angular_velocity, dt),
            }
        }
    }

    /// The body with gravity acting on its velocity for the time `dt`.
    pub open spec fn accelerated(self, gravity: V3, dt: int) -> BodyModel {
        BodyModel { linear_velocity: self.linear_velocity.add(gravity.scale(dt)), ..self }
    }

    /// The body brought to rest, with empty accumulators.
    pub open spec fn reset(self) -> BodyModel {
        BodyModel {
            linear_velocity: V3::zero(),
            angular_velocity: V3::zero(),
            force: V3::zero(),
            torque: V3::zero(),
            ..self
        }
    }
}

/// Dynamic state of one simulated body.
#[derive(Clone, Copy, Debug)]
pub struct Rigidbody {
    mass: Scalar,
    inertia_inverse: Mat3,
    linear_velocity: Vec3,
    angular_velocity: Vec3,
    force: Vec3,
    torque: Vec3,
    linear_damping: Scalar,
    angular_damping: Scalar,
}

impl View for Rigidbody {
    type V = BodyModel;

    closed spec fn view(&self) -> BodyModel {
        BodyModel {
            mass: self.mass@,
            inertia_inverse: self.inertia_inverse@,
            linear_velocity: self.linear_velocity@,
            angular_velocity: self.angular_velocity@,
            force: self.force@,
            torque: self.torque@,
            linear_damping: self.linear_damping@,
            angular_damping: self.angular_damping@,
        }
    }
}

impl Rigidbody {
    #[verifier::type_invariant]
    spec fn valid(self) -> bool {
        self@.wf()
    }

    /// A massless body at rest with no damping.
    pub fn new() -> (r: Rigidbody)
        ensures
            r@ == BodyModel::empty(),
    {
        Rigidbody {
            mass: Scalar::zero(),
            inertia_inverse: Mat3::identity(),
            linear_velocity: Vec3::zero(),
            angular_velocity: Vec3::zero(),
            force: Vec3::zero(),
            torque: Vec3::zero(),
            linear_damping: Scalar::zero(),
            angular_damping: Scalar::zero(),
        }
    }

    /// The mass.
    pub fn mass(&self) -> (r: Scalar)
        ensures
            r@ == self@.mass,
            r@ >= 0,
    {
        proof {
            use_type_invariant(self);
        }
        self.mass
    }

    /// The inverse of the inertia tensor.
    pub fn inertia_inverse(&self) -> (r: Mat3)
        ensures
            r@ == self@.inertia_inverse,
    {
        self.inertia_inverse
    }

    /// The linear velocity.
    pub fn linear_velocity(&self) -> (r: Vec3)
        ensures
            r@ == self@.linear_velocity,
    {
        self.linear_velocity
    }

    /// The angular velocity.
    pub fn angular_velocity(&self) -> (r: Vec3)
        ensures
            r@ == self@.angular_velocity,
    {
        self.angular_velocity
    }

    /// The force accumulated since the last step.
    pub fn force(&self) -> (r: Vec3)
        ensures
            r@ == self@.force,
    {
        self.force
    }

    /// The torque accumulated since the last step.
    pub fn torque(&self) -> (r: Vec3)
        ensures
            r@ == self@.torque,
    {
        self.torque
    }

    /// The linear damping coefficient.
    pub fn linear_damping(&self) -> (r: Scalar)
        ensures
            r@ == self@.linear_damping,
            r@ >= 0,
    {
        proof {
            use_type_invariant(self);
        }
        self.linear_damping
    }

    /// The angular damping coefficient.
    pub fn angular_damping(&self) -> (r: Scalar)
        ensures
            r@ == self@.angular_damping,
            r@ >= 0,
    {
        proof {
            use_type_invariant(self);
        }
        self.angular_damping
    }

    /// A body with the mass and inertia of a uniform cuboid of dimensions
    /// `size` and density `density`, at rest, with damping coefficients of
    /// one half. A dimension that is zero or below, or a density below zero,
    /// is refused.
    pub fn cuboid(size: Vec3, density: Scalar) -> (r: Result<Rigidbody, PhysicsError>)
        ensures
            r is Ok <==> size@.x > 0 && size@.y > 0 && size@.z > 0 && density@ >= 0,
            r matches Err(e) ==> e == (if size@.x > 0 && size@.y > 0 && size@.z > 0 {
                PhysicsError::NegativeMass
            } else {
                PhysicsError::NonPositiveSize
            }),
            r matches Ok(b) ==> b@ == BodyModel::cuboid(size@, density@),
    {
        let shape: CuboidCollider = match CuboidCollider::new(size.x, size.y, size.z) {
            Ok(shape) => shape,
            Err(e) => {
                return Err(e);
            },
        };
        if density.is_negative() {
            return Err(PhysicsError::NegativeMass);
        }
        let x: i128 = size.x.raw() as i128;
        let y: i128 = size.y.raw() as i128;
        let z: i128 = size.z.raw() as i128;
        proof {
            lemma_scale_squared();
            lemma_mul_bound(x as int, y as int, LIMIT as int, LIMIT as int);
            lemma_mul_bound(x * y, z as int, LIMIT * LIMIT, LIMIT as int);
            assert(LIMIT * LIMIT * LIMIT == 1_000_000_000_000_000_000_000_000_000_000_000_000)
                by (nonlinear_arith)
                requires
                    LIMIT == 1_000_000_000_000,
            ;
            assert(x * y * z >= 0) by (nonlinear_arith)
                requires
                    x > 0,
                    y > 0,
                    z > 0,
            ;
        }
        let unit: i128 = 1_000_000_000_000;
        let volume: Scalar = Scalar::from_wide(x * y * z / unit);
        let mass: Scalar = volume.mul(density);
        proof {
            lemma_tdiv_abs(x * y * z, SCALE * SCALE);
            assert(volume@ * density@ >= 0) by (nonlinear_arith)
                requires
                    volume@ >= 0,
                    density@ >= 0,
            ;
            lemma_tdiv_abs(volume@ * density@, SCALE as int);
        }
        let inertia: Mat3 = match shape.get_inertia(mass) {
            Ok(inertia) => inertia,
            Err(e) => {
                return Err(e);
            },
        };
        let inertia_inverse: Mat3 = match inertia.inverse() {
            Some(inverse) => inverse,
            None => Mat3::zero(),
        };
        Ok(
            Rigidbody {
                mass,
                inertia_inverse,
                linear_velocity: Vec3::zero(),
                angular_velocity: Vec3::zero(),
                force: Vec3::zero(),
                torque: Vec3::zero(),
                linear_damping: Scalar::from_raw(500_000),
                angular_damping: Scalar::from_raw(500_000),
            },
        )
    }

    /// Sets the mass; a negative mass is refused and changes nothing.
    pub fn set_mass(&mut self, mass: Scalar) -> (r: Result<(), PhysicsError>)
        ensures
            r is Err <==> mass@ < 0,
            r matches Err(e) ==> e == PhysicsError::NegativeMass && final(self)@ == old(self)@,
            r is Ok ==> final(self)@ == (BodyModel { mass: mass@, ..old(self)@ }),
    {
        if mass.is_negative() {
            return Err(PhysicsError::NegativeMass);
        }
        proof {
            use_type_invariant(&*self);
        }
        self.mass = mass;
        Ok(())
    }

    /// Sets the inertia tensor. The body keeps its inverse; a tensor without
    /// an inverse makes the body one that no torque turns.
    pub fn set_inertia(&mut self, inertia: Mat3)
        ensures
            final(self)@ == (BodyModel {
                inertia_inverse: inverse_inertia(inertia@),
                ..old(self)@
            }),
    {
        proof {
            use_type_invariant(&*self);
        }
        self.inertia_inverse =
        match inertia.inverse() {
            Some(inverse) => inverse,
            None => Mat3::zero(),
        };
    }

    /// Sets the linear velocity.
    pub fn set_linear_velocity(&mut self, linear_velocity: Vec3)
        ensures
            final(self)@ == (BodyModel { linear_velocity: linear_velocity@, ..old(self)@ }),
    {
        proof {
            use_type_invariant(&*self);
        }
        self.linear_velocity = linear_velocity;
    }

    /// Sets the angular velocity.
    pub fn set_angular_velocity(&mut self, angular_velocity: Vec3)
        ensures
            final(self)@ == (BodyModel { angular_velocity: angular_velocity@, ..old(self)@ }),
    {
        proof {
            use_type_invariant(&*self);
        }
        self.angular_velocity = angular_velocity;
    }

    /// Sets the linear damping coefficient; a negative one is refused and
    /// changes nothing.
    pub fn set_linear_damping(&mut self, linear_damping: Scalar) -> (r: Result<(), PhysicsError>)
        ensures
            r is Err <==> linear_damping@ < 0,
            r matches Err(e) ==> e == PhysicsError::NegativeDamping && final(self)@ == old(self)@,
            r is Ok ==> final(self)@ == (BodyModel {
                linear_damping: linear_damping@,
                ..old(self)@
            }),
    {
        if linear_damping.is_negative() {
            return Err(PhysicsError::NegativeDamping);
        }
        proof {
            use_type_invariant(&*self);
        }
        self.linear_damping = linear_damping;
        Ok(())
    }

    /// Sets the angular damping coefficient; a negative one is refused and
    /// changes nothing.
    pub fn set_angular_damping(&mut self, angular_damping: Scalar) -> (r: Result<
        (),
        PhysicsError,
    >)
        ensures
            r is Err <==> angular_damping@ < 0,
            r matches Err(e) ==> e == PhysicsError::NegativeDamping && final(self)@ == old(self)@,
            r is Ok ==> final(self)@ == (BodyModel {
                angular_damping: angular_damping@,
                ..old(self)@
            }),
    {
        if angular_damping.is_negative() {
            return Err(PhysicsError::NegativeDamping);
        }
        proof {
            use_type_invariant(&*self);
        }
        self.angular_damping = angular_damping;
        Ok(())
    }

    /// Applies `force` at the body-space point `local_space_attach_point`:
    /// adds it to the accumulated force, and its torque about the centre to
    /// the accumulated torque. The point is carried into world space by the
    /// orientation predicted `horizon` ahead of `pose`.
    pub fn add_force(
        &mut self,
        pose: &Pose,
        local_space_attach_point: Vec3,
        force: Vec3,
        horizon: Scalar,
    )
        ensures
            final(self)@ == old(self)@.add_force(
                pose@,
                local_space_attach_point@,
                force@,
                horizon@,
            ),
    {
        proof {
            use_type_invariant(&*self);
        }
        let next: Quat = pose.rotation.integrate(self.angular_velocity, horizon);
        let arm: Vec3 = next.rotate(local_space_attach_point);
        let torque: Vec3 = arm.cross(force);
        self.force = self.force.add(force);
        self.torque = self.torque.add(torque);
    }

    /// Advances the body and its pose by one step of at most
    /// `settings.delta_time`, by semi-implicit Euler: the velocities first,
    /// from the net force and torque, then the pose from the new velocities.
    /// The accumulators are emptied. A kinematic body and its pose do not
    /// move.
    pub fn step(&mut self, pose: &mut Pose, settings: &PumaPhysicsSettings, delta_time: Scalar)
        ensures
            final(self)@ == old(self)@.step(settings@, delta_time@),
            final(pose)@ == old(self)@.step_pose(old(pose)@, settings@, delta_time@),
            final(self)@.force == V3::zero(),
            final(self)@.torque == V3::zero(),
            !old(self)@.is_kinematic() ==> final(self)@.linear_velocity.norm_sq()
                <= settings@.max_speed * settings@.max_speed,
            !old(self)@.is_kinematic() || old(pose)@.rotation.is_unit()
                ==> final(pose)@.rotation.is_unit(),
    {
        proof {
            use_type_invariant(&*self);
        }
        let dt: Scalar = settings.step_time(delta_time);
        if self.mass.is_zero() {
            self.force = Vec3::zero();
            self.torque = Vec3::zero();
            return ;
        }
        let drag: Vec3 = self.linear_velocity.scale(self.linear_damping).neg();
        let net_force: Vec3 = self.force.add(settings.gravity_acceleration.scale(self.mass)).add(
            drag,
        );
        let velocity: Vec3 = self.linear_velocity.add(
            net_force.div(self.mass).scale(dt),
        ).clamp_length(settings.max_speed);
        let angular_drag: Vec3 = self.angular_velocity.scale(self.angular_damping).neg();
        let net_torque: Vec3 = self.torque.add(angular_drag);
        let angular_velocity: Vec3 = self.angular_velocity.add(
            self.inertia_inverse.mul_vec3(net_torque).scale(dt),
        );
        proof {
            lemma_clamp_length_bound(
                old(self)@.linear_velocity.add(
                    old(self)@.net_force(settings@.gravity_acceleration).div(old(self)@.mass).scale(
                        dt@,
                    ),
                ),
                settings@.max_speed,
            );
        }
        pose.translation = pose.translation.add(velocity.scale(dt));
        pose.rotation = pose.rotation.integrate(angular_velocity, dt);
        self.linear_velocity = velocity;
        self.angular_velocity = angular_velocity;
        self.force = Vec3::zero();
        self.torque = Vec3::zero();
    }

    /// Brings the body to rest at the origin: velocities and accumulators
    /// become zero, the pose the canonical one.
    pub fn reset(&mut self, pose: &mut Pose)
        ensures
            final(self)@ == old(self)@.reset(),
            final(pose)@ == PoseModel::origin(),
    {
        proof {
            use_type_invariant(&*self);
        }
        self.linear_velocity = Vec3::zero();
        self.angular_velocity = Vec3::zero();
        self.force = Vec3::zero();
        self.torque = Vec3::zero();
        pose.translation = Vec3::zero();
        pose.rotation = Quat::identity();
    }
}

impl Default for Rigidbody {
    /// A body of mass one at rest, with damping coefficients of one half.
    fn default() -> (r: Rigidbody)
        ensures
            r@ == BodyModel::standard(),
    {
        Rigidbody {
            mass: Scalar::one(),
            inertia_inverse: Mat3::identity(),
            linear_velocity: Vec3::zero(),
            angular_velocity: Vec3::zero(),
            force: Vec3::zero(),
            torque: Vec3::zero(),
            linear_damping: Scalar::from_raw(500_000),
            angular_damping: Scalar::from_raw(500_000),
        }
    }
}

/// One component of the velocity of a body on which only drag acts: after
/// the velocity update it is no larger in magnitude than before.
proof fn lemma_drag_component(v: int, damping: int, mass: int, dt: int)
    requires
        damping >= 0,
        mass > 0,
        dt >= 0,
        damping * dt <= 2 * mass * SCALE,
    ensures
        abs(fx_add(v, fx_mul(fx_div(-fx_mul(v, damping), mass), dt))) <= abs(v),
{
    let u = fx_mul(v, damping);
    let a = fx_div(-u, mass);
    let dv = fx_mul(a, dt);
    let one = SCALE as int;
    lemma_fx_mul_shrinks(v, damping);
    lemma_fx_div_shrinks(-u, mass);
    lemma_fx_mul_shrinks(a, dt);
    assert((v >= 0 ==> v * damping >= 0) && (v <= 0 ==> v * damping <= 0)) by (nonlinear_arith)
        requires
            damping >= 0,
    ;
    assert((a >= 0 ==> a * dt >= 0) && (a <= 0 ==> a * dt <= 0)) by (nonlinear_arith)
        requires
            dt >= 0,
    ;
    let av = abs(v);
    let au = abs(u);
    let aa = abs(a);
    let ad = abs(dv);
    assert(abs(-u) == au);
    assert(abs(damping) == damping && abs(dt) == dt);
    // ad * one <= aa * dt,  aa * mass <= au * one,  au * one <= av * damping
    assert(ad * mass <= au * dt) by (nonlinear_arith)
        requires
            ad * one <= aa * dt,
            aa * mass <= au * one,
            one > 0,
            mass > 0,
            dt >= 0,
            ad >= 0,
            aa >= 0,
            au >= 0,
    ;
    assert(ad <= 2 * av) by (nonlinear_arith)
        requires
            ad * mass <= au * dt,
            au * one <= av * damping,
            damping * dt <= 2 * mass * one,
            one > 0,
            mass > 0,
            dt >= 0,
            damping >= 0,
            ad >= 0,
            au >= 0,
            av >= 0,
    ;
}

/// Drag alone never speeds a body up.
///
/// A body on which neither gravity nor an accumulated force acts, with a
/// damping coefficient `c >= 0`, is after a step of `dt >= 0` no faster than
/// before, provided `c * dt <= 2 * mass`: beyond that the drag of one step
/// would overshoot and reverse the velocity to more than it was.
pub proof fn lemma_drag_never_speeds_up(body: BodyModel, settings: SettingsModel, delta_time: int)
    requires
        body.wf(),
        body.force == V3::zero(),
        settings.gravity_acceleration == V3::zero(),
        settings.step_time(delta_time) >= 0,
        body.linear_damping * settings.step_time(delta_time) <= 2 * body.mass * SCALE,
    ensures
        body.step(settings, delta_time).linear_velocity.norm_sq()
            <= body.linear_velocity.norm_sq(),
{
    if !body.is_kinematic() {
        let dt = settings.step_time(delta_time);
        let v = body.linear_velocity;
        let c = body.linear_damping;
        let m = body.mass;
        lemma_fx_mul_symmetric(0, m);
        lemma_drag_component(v.x, c, m, dt);
        lemma_drag_component(v.y, c, m, dt);
        lemma_drag_component(v.z, c, m, dt);
        let net = body.net_force(settings.gravity_acceleration);
        assert(net == v.scale(c).neg());
        let moved = v.add(net.div(m).scale(dt));
        assert(tquot(-fx_mul(v.x, c) * SCALE, m) == tdiv(-fx_mul(v.x, c) * SCALE, m));
        lemma_square_monotone(moved.x, v.x);
        lemma_square_monotone(moved.y, v.y);
        lemma_square_monotone(moved.z, v.z);
        lemma_clamp_length_shrinks(moved, settings.max_speed);
    }
}

/// A massless cuboid has no inertia to invert: its inverse inertia is zero,
/// and no torque turns it.
pub proof fn lemma_massless_cuboid_does_not_turn(shape: CuboidModel, torque: V3)
    ensures
        inverse_inertia(shape.inertia(0)) == M3::zero(),
        inverse_inertia(shape.inertia(0)).mul_vec3(torque) == V3::zero(),
{
    lemma_fx_mul_symmetric(shape.width * shape.width + shape.height * shape.height, 0);
    lemma_fx_mul_symmetric(shape.width * shape.width + shape.depth * shape.depth, 0);
    lemma_fx_mul_symmetric(shape.height * shape.height + shape.depth * shape.depth, 0);
    lemma_tdiv_abs(0, 12 * (SCALE * SCALE));
    lemma_scale_squared();
    lemma_flat_diagonal_has_no_inverse(V3::zero());
    lemma_fx_mul_symmetric(0, torque.x);
    lemma_fx_mul_symmetric(0, torque.y);
    lemma_fx_mul_symmetric(0, torque.z);
    lemma_tdiv_abs(0, SCALE as int);
}

/// Resetting twice is resetting once.
pub proof fn lemma_reset_idempotent(body: BodyModel)
    ensures
        body.reset().reset() == body.reset(),
{
}

/// The body and pose after a run of steps, one for each frame time.
pub open spec fn run(body: BodyModel, pose: PoseModel, settings: SettingsModel, frames: Seq<int>)
    -> (BodyModel, PoseModel)
    decreases frames.len(),
{
    if frames.len() == 0 {
        (body, pose)
    } else {
        let before = run(body, pose, settings, frames.drop_last());
        (
            before.0.step(settings, frames.last()),
            before.0.step_pose(before.1, settings, frames.last()),
        )
    }
}

/// One step leaves a unit orientation a unit orientation, and gives a body
/// that is not kinematic a unit orientation whatever it had.
pub proof fn lemma_step_keeps_unit(
    body: BodyModel,
    pose: PoseModel,
    settings: SettingsModel,
    delta_time: int,
)
    requires
        pose.rotation.is_unit() || !body.is_kinematic(),
    ensures
        body.step_pose(pose, settings, delta_time).rotation.is_unit(),
{
    if !body.is_kinematic() {
        let dt = settings.step_time(delta_time);
        let next = body.step(settings, delta_time);
        lemma_normalize_is_unit(pose.rotation.turned(next.angular_velocity, dt));
    }
}

/// Through any run of steps the orientation, of unit length at the start,
/// is of unit length after every step.
pub proof fn lemma_orientation_stays_unit(
    body: BodyModel,
    pose: PoseModel,
    settings: SettingsModel,
    frames: Seq<int>,
)
    requires
        pose.rotation.is_unit(),
    ensures
        run(body, pose, settings, frames).1.rotation.is_unit(),
    decreases frames.len(),
{
    if frames.len() > 0 {
        lemma_orientation_stays_unit(body, pose, settings, frames.drop_last());
        let before = run(body, pose, settings, frames.drop_last());
        lemma_step_keeps_unit(before.0, before.1, settings, frames.last());
    }
}

} // verus!
