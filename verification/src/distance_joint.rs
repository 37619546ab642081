//! The soft distance constraint between two attachment points.

use vstd::prelude::*;
use crate::error::PhysicsError;
use crate::scalar::Scalar;
use crate::simulation::{actors_view, find_actor, lookup, Actor, ActorModel};
use crate::spring::{spring, SpringModel};
use crate::vec3::{Vec3, V3};

verus! {

/// The mathematical value of a [`DistanceJoint`].
pub struct JointModel {
    pub actor0: Option<u64>,
    pub actor1: Option<u64>,
    pub local_frame0: V3,
    pub local_frame1: V3,
    pub min_squared_distance: int,
    pub max_squared_distance: int,
    pub stiffness: int,
    pub damping: int,
}

/// Where an end of a joint is, and how fast it moves.
pub struct EndpointModel {
    pub point: V3,
    pub velocity: V3,
}

/// The end of a joint attached at `local_frame` to `actor`.
///
/// Without an actor the end is a fixed anchor at `local_frame`, read as a
/// world point. With an actor that the table holds, it is the actor's
/// position plus the rotated offset, and moves with the actor's body, if it
/// has one. With an actor that the table does not hold, it is a fixed anchor
/// at the origin.
pub open spec fn endpoint(actor: Option<u64>, local_frame: V3, actors: Seq<Option<ActorModel>>)
    -> EndpointModel {
    match actor {
        None => EndpointModel { point: local_frame, velocity: V3::zero() },
        Some(id) => match lookup(actors, id) {
            None => EndpointModel { point: V3::zero(), velocity: V3::zero() },
            Some(found) => EndpointModel {
                point: found.pose.translation.add(found.pose.rotation.rotate(local_frame)),
                velocity: match found.rigidbody {
                    Some(body) => body.linear_velocity,
                    None => V3::zero(),
                },
            },
        },
    }
}

impl JointModel {
    /// Whether the band is in order and the coefficients are non-negative.
    pub open spec fn wf(self) -> bool {
        &&& self.min_squared_distance <= self.max_squared_distance
        &&& self.stiffness >= 0
        &&& self.damping >= 0
    }

    /// A joint between two fixed anchors at the origin, slack up to a
    /// squared distance of one, with stiffness and damping of ten.
    pub open spec fn standard() -> JointModel {
        JointModel {
            actor0: None,
            actor1: None,
            local_frame0: V3::zero(),
            local_frame1: V3::zero(),
            min_squared_distance: 0,
            max_squared_distance: 1_000_000,
            stiffness: 10_000_000,
            damping: 10_000_000,
        }
    }

    /// The spring between the two ends of this joint.
    pub open spec fn spring(self, actors: Seq<Option<ActorModel>>, delta_time: int)
        -> SpringModel {
        let end0 = endpoint(self.actor0, self.local_frame0, actors);
        let end1 = endpoint(self.actor1, self.local_frame1, actors);
        SpringModel {
            translation0: end0.point,
            translation1: end1.point,
            velocity0: end0.velocity,
            velocity1: end1.velocity,
            stiffness: self.stiffness,
            damping: self.damping,
            max_squared_distance: self.max_squared_distance,
            min_squared_distance: self.min_squared_distance,
            delta_time,
        }
    }

    /// The forces of this joint on its first and on its second end.
    pub open spec fn resolve(self, actors: Seq<Option<ActorModel>>, delta_time: int) -> (V3, V3) {
        (self.spring(actors, delta_time).force0(), self.spring(actors, delta_time).force1())
    }
}

/// A soft link that keeps the squared distance of two attachment points
/// within a band.
#[derive(Clone, Copy, Debug)]
pub struct DistanceJoint {
    actor0: Option<u64>,
    actor1: Option<u64>,
    local_frame0: Vec3,
    local_frame1: Vec3,
    min_squared_distance: Scalar,
    max_squared_distance: Scalar,
    stiffness: Scalar,
    damping: Scalar,
}

impl View for DistanceJoint {
    type V = JointModel;

    closed spec fn view(&self) -> JointModel {
        JointModel {
            actor0: self.actor0,
            actor1: self.actor1,
            local_frame0: self.local_frame0@,
            local_frame1: self.local_frame1@,
            min_squared_distance: self.min_squared_distance@,
            max_squared_distance: self.max_squared_distance@,
            stiffness: self.stiffness@,
            damping: self.damping@,
        }
    }
}

/// Where an end of a joint is, and how fast it moves.
fn resolve_endpoint(actor: Option<u64>, local_frame: Vec3, actors: &Vec<Option<Actor>>) -> (r: (
    Vec3,
    Vec3,
))
    ensures
        r.0@ == endpoint(actor, local_frame@, actors_view(actors@)).point,
        r.1@ == endpoint(actor, local_frame@, actors_view(actors@)).velocity,
{
    match actor {
        None => (local_frame, Vec3::zero()),
        Some(id) => match find_actor(actors, id) {
            None => (Vec3::zero(), Vec3::zero()),
            Some(found) => {
                let point: Vec3 = found.pose.translation.add(
                    found.pose.rotation.rotate(local_frame),
                );
                let velocity: Vec3 = match found.rigidbody {
                    Some(body) => body.linear_velocity(),
                    None => Vec3::zero(),
                };
                (point, velocity)
            },
        },
    }
}

impl DistanceJoint {
    #[verifier::type_invariant]
    spec fn valid(self) -> bool {
        self@.wf()
    }

    /// The joint between `actor0` and `actor1`, attached at the offsets
    /// `local_frame0` and `local_frame1`. A band whose least squared
    /// distance exceeds its greatest is refused, and so are a negative
    /// stiffness and a negative damping, in this order.
    pub fn new(
        actor0: Option<u64>,
        actor1: Option<u64>,
        local_frame0: Vec3,
        local_frame1: Vec3,
        min_squared_distance: Scalar,
        max_squared_distance: Scalar,
        stiffness: Scalar,
        damping: Scalar,
    ) -> (r: Result<DistanceJoint, PhysicsError>)
        ensures
            r is Ok <==> min_squared_distance@ <= max_squared_distance@ && stiffness@ >= 0
                && damping@ >= 0,
            r matches Err(e) ==> e == (if min_squared_distance@ > max_squared_distance@ {
                PhysicsError::InvertedDistanceBand
            } else if stiffness@ < 0 {
                PhysicsError::NegativeStiffness
            } else {
                PhysicsError::NegativeDamping
            }),
            r matches Ok(joint) ==> joint@ == (JointModel {
                actor0,
                actor1,
                local_frame0: local_frame0@,
                local_frame1: local_frame1@,
                min_squared_distance: min_squared_distance@,
                max_squared_distance: max_squared_distance@,
                stiffness: stiffness@,
                damping: damping@,
            }),
    {
        if max_squared_distance.lt(min_squared_distance) {
            return Err(PhysicsError::InvertedDistanceBand);
        }
        if stiffness.is_negative() {
            return Err(PhysicsError::NegativeStiffness);
        }
        if damping.is_negative() {
            return Err(PhysicsError::NegativeDamping);
        }
        Ok(
            DistanceJoint {
                actor0,
                actor1,
                local_frame0,
                local_frame1,
                min_squared_distance,
                max_squared_distance,
                stiffness,
                damping,
            },
        )
    }

    /// The actor at the first end, if there is one.
    pub fn actor0(&self) -> (r: Option<u64>)
        ensures
            r == self@.actor0,
    {
        self.actor0
    }

    /// The actor at the second end, if there is one.
    pub fn actor1(&self) -> (r: Option<u64>)
        ensures
            r == self@.actor1,
    {
        self.actor1
    }

    /// The offset of the first attachment point.
    pub fn local_frame0(&self) -> (r: Vec3)
        ensures
            r@ == self@.local_frame0,
    {
        self.local_frame0
    }

    /// The offset of the second attachment point.
    pub fn local_frame1(&self) -> (r: Vec3)
        ensures
            r@ == self@.local_frame1,
    {
        self.local_frame1
    }

    /// The least squared distance at which the joint is slack.
    pub fn min_squared_distance(&self) -> (r: Scalar)
        ensures
            r@ == self@.min_squared_distance,
            self@.wf(),
    {
        proof {
            use_type_invariant(self);
        }
        self.min_squared_distance
    }

    /// The greatest squared distance at which the joint is slack.
    pub fn max_squared_distance(&self) -> (r: Scalar)
        ensures
            r@ == self@.max_squared_distance,
            self@.wf(),
    {
        proof {
            use_type_invariant(self);
        }
        self.max_squared_distance
    }

    /// The stiffness of the spring.
    pub fn stiffness(&self) -> (r: Scalar)
        ensures
            r@ == self@.stiffness,
            r@ >= 0,
    {
        proof {
            use_type_invariant(self);
        }
        self.stiffness
    }

    /// The damping of the spring.
    pub fn damping(&self) -> (r: Scalar)
        ensures
            r@ == self@.damping,
            r@ >= 0,
    {
        proof {
            use_type_invariant(self);
        }
        self.damping
    }

    /// The forces of this joint on its first and on its second end, over the
    /// time step `delta_time`, with the actors as the table holds them. The
    /// two are equal and opposite, and zero while the squared distance of
    /// the ends lies inside the band.
    pub fn resolve(&self, actors: &Vec<Option<Actor>>, delta_time: Scalar) -> (r: (Vec3, Vec3))
        ensures
            r.0@ == self@.resolve(actors_view(actors@), delta_time@).0,
            r.1@ == self@.resolve(actors_view(actors@), delta_time@).1,
            r.1@ == r.0@.neg(),
            ({
                let s = self@.spring(actors_view(actors@), delta_time@);
                s.min_squared_distance <= s.squared_distance() <= s.max_squared_distance ==> r.0@
                    == V3::zero() && r.1@ == V3::zero()
            }),
    {
        let end0: (Vec3, Vec3) = resolve_endpoint(self.actor0, self.local_frame0, actors);
        let end1: (Vec3, Vec3) = resolve_endpoint(self.actor1, self.local_frame1, actors);
        spring(
            end0.0,
            end1.0,
            end0.1,
            end1.1,
            self.stiffness,
            self.damping,
            self.max_squared_distance,
            self.min_squared_distance,
            delta_time,
        )
    }
}

impl Default for DistanceJoint {
    /// A joint between two fixed anchors at the origin, slack up to a
    /// squared distance of one, with stiffness and damping of ten.
    fn default() -> (r: DistanceJoint)
        ensures
            r@ == JointModel::standard(),
    {
        DistanceJoint {
            actor0: None,
            actor1: None,
            local_frame0: Vec3::zero(),
            local_frame1: Vec3::zero(),
            min_squared_distance: Scalar::zero(),
            max_squared_distance: Scalar::from_raw(1_000_000),
            stiffness: Scalar::from_raw(10_000_000),
            damping: Scalar::from_raw(10_000_000),
        }
    }
}

} // verus!
