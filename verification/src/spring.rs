//! The spring-damper law of a slack link between two points.

use vstd::prelude::*;
use crate::scalar::{fx_mul, fx_sub, lemma_fx_mul_symmetric, Scalar};
use crate::vec3::{lemma_normalize_or_is_unit, lemma_up_is_unit, Vec3, V3};

verus! {

/// How far a squared distance lies outside the band `[min, max]`: above zero
/// when stretched beyond `max`, below zero when pressed under `min`, zero
/// inside the band.
pub open spec fn deformation(squared_distance: int, max: int, min: int) -> int {
    if squared_distance > max {
        fx_sub(squared_distance, max)
    } else if squared_distance < min {
        fx_sub(squared_distance, min)
    } else {
        0
    }
}

/// The mathematical inputs of [`spring`].
pub struct SpringModel {
    pub translation0: V3,
    pub translation1: V3,
    pub velocity0: V3,
    pub velocity1: V3,
    pub stiffness: int,
    pub damping: int,
    pub max_squared_distance: int,
    pub min_squared_distance: int,
    pub delta_time: int,
}

impl SpringModel {
    /// From the first point to the second, each moved ahead by its velocity
    /// over the time step.
    pub open spec fn separation(self) -> V3 {
        self.translation1.add(self.velocity1.scale(self.delta_time)).sub(
            self.translation0.add(self.velocity0.scale(self.delta_time)),
        )
    }

    /// The squared length of the separation.
    pub open spec fn squared_distance(self) -> int {
        self.separation().length_squared()
    }

    /// The unit vector from the first point to the second; "up" when the
    /// two coincide.
    pub open spec fn direction(self) -> V3 {
        self.separation().normalize_or(V3::up())
    }

    /// How fast the points approach each other along the direction.
    pub open spec fn closing_rate(self) -> int {
        fx_sub(self.velocity0.dot(self.direction()), self.velocity1.dot(self.direction()))
    }

    /// How far the squared distance lies outside the band.
    pub open spec fn deformation(self) -> int {
        deformation(self.squared_distance(), self.max_squared_distance, self.min_squared_distance)
    }

    /// The force of the spring: deformation times stiffness.
    pub open spec fn spring_force(self) -> int {
        fx_mul(self.deformation(), self.stiffness)
    }

    /// The force of the damper: closing rate times damping while the link is
    /// deformed, zero while it is slack.
    pub open spec fn damping_force(self) -> int {
        if self.deformation() != 0 {
            fx_mul(self.closing_rate(), self.damping)
        } else {
            0
        }
    }

    /// The net force along the direction, on the first point.
    pub open spec fn magnitude(self) -> int {
        fx_sub(self.spring_force(), self.damping_force())
    }

    /// The force on the first point: towards the second when the link is
    /// stretched.
    pub open spec fn force0(self) -> V3 {
        self.direction().scale(self.magnitude())
    }

    /// The force on the second point, equal and opposite to that on the
    /// first.
    pub open spec fn force1(self) -> V3 {
        self.direction().scale(fx_sub(self.damping_force(), self.spring_force()))
    }
}

/// The direction of a spring is a unit vector, whatever its inputs.
pub proof fn lemma_direction_is_unit(s: SpringModel)
    ensures
        s.direction().is_unit(),
{
    lemma_up_is_unit();
    lemma_normalize_or_is_unit(s.separation(), V3::up());
}

/// The two forces of a spring are equal and opposite, component by
/// component, whatever its inputs.
pub proof fn lemma_forces_are_opposite(s: SpringModel)
    ensures
        s.force1() == s.force0().neg(),
{
    let d = s.direction();
    let m = s.magnitude();
    assert(fx_sub(s.damping_force(), s.spring_force()) == -m);
    lemma_fx_mul_symmetric(d.x, m);
    lemma_fx_mul_symmetric(d.y, m);
    lemma_fx_mul_symmetric(d.z, m);
}

/// A spring whose squared distance lies inside its band exerts no force on
/// either point, whatever the velocities, the stiffness and the damping.
pub proof fn lemma_dead_band(s: SpringModel)
    requires
        s.min_squared_distance <= s.squared_distance() <= s.max_squared_distance,
    ensures
        s.force0() == V3::zero(),
        s.force1() == V3::zero(),
{
    let d = s.direction();
    assert(s.deformation() == 0);
    lemma_fx_mul_symmetric(0, s.stiffness);
    assert(s.magnitude() == 0);
    lemma_fx_mul_symmetric(d.x, 0);
    lemma_fx_mul_symmetric(d.y, 0);
    lemma_fx_mul_symmetric(d.z, 0);
}

/// The pair of forces that a spring-damper between two points exerts on
/// them: first the force on the point at `translation0`, then that on the
/// point at `translation1`. Each point is first moved ahead by its velocity
/// over `delta_time`. The link is slack while the squared distance lies in
/// `[min_squared_distance, max_squared_distance]`.
pub fn spring(
    translation0: Vec3,
    translation1: Vec3,
    velocity0: Vec3,
    velocity1: Vec3,
    stiffness: Scalar,
    damping: Scalar,
    max_squared_distance: Scalar,
    min_squared_distance: Scalar,
    delta_time: Scalar,
) -> (r: (Vec3, Vec3))
    ensures
        ({
            let s = SpringModel {
                translation0: translation0@,
                translation1: translation1@,
                velocity0: velocity0@,
                velocity1: velocity1@,
                stiffness: stiffness@,
                damping: damping@,
                max_squared_distance: max_squared_distance@,
                min_squared_distance: min_squared_distance@,
                delta_time: delta_time@,
            };
            &&& r.0@ == s.force0()
            &&& r.1@ == s.force1()
            &&& r.1@ == r.0@.neg()
            &&& s.direction().is_unit()
            &&& s.min_squared_distance <= s.squared_distance() <= s.max_squared_distance ==> r.0@
                == V3::zero() && r.1@ == V3::zero()
        }),
{
    let ghost s = SpringModel {
        translation0: translation0@,
        translation1: translation1@,
        velocity0: velocity0@,
        velocity1: velocity1@,
        stiffness: stiffness@,
        damping: damping@,
        max_squared_distance: max_squared_distance@,
        min_squared_distance: min_squared_distance@,
        delta_time: delta_time@,
    };
    proof {
        lemma_direction_is_unit(s);
        lemma_forces_are_opposite(s);
        if s.min_squared_distance <= s.squared_distance() <= s.max_squared_distance {
            lemma_dead_band(s);
        }
    }
    let point0: Vec3 = translation0.add(velocity0.scale(delta_time));
    let point1: Vec3 = translation1.add(velocity1.scale(delta_time));
    let spring_vector: Vec3 = point1.sub(point0);
    let squared_distance: Scalar = spring_vector.length_squared();
    let direction: Vec3 = spring_vector.normalize_or(Vec3::up());
    let close_rate: Scalar = velocity0.dot(direction).sub(velocity1.dot(direction));
    let deformation: Scalar = if max_squared_distance.lt(squared_distance) {
        squared_distance.sub(max_squared_distance)
    } else if squared_distance.lt(min_squared_distance) {
        squared_distance.sub(min_squared_distance)
    } else {
        Scalar::zero()
    };
    let spring_force: Scalar = deformation.mul(stiffness);
    let damping_force: Scalar = if deformation.is_zero() {
        Scalar::zero()
    } else {
        close_rate.mul(damping)
    };
    (
        direction.scale(spring_force.sub(damping_force)),
        direction.scale(damping_force.sub(spring_force)),
    )
}

} // verus!
