//! Colliders and the inertia tensors of their shapes.

use vstd::prelude::*;
use crate::error::PhysicsError;
use crate::mat3::{Mat3, M3};
use crate::scalar::{lemma_mul_bound, sat, tdiv, Scalar, LIMIT, SCALE};
use crate::vec3::{Vec3, V3};

verus! {

/// Moment of inertia of a uniform cuboid of mass `mass` about the axis
/// perpendicular to the face with sides `a` and `b`: `(a^2 + b^2) m / 12`,
/// rounded once.
pub open spec fn inertia_about_axis(mass: int, a: int, b: int) -> int {
    sat(tdiv((a * a + b * b) * mass, 12 * (SCALE * SCALE)))
}

/// Moment of inertia of a uniform cuboid of mass `mass` about the axis
/// perpendicular to the face with sides `width` and `height`.
pub fn cuboid_inertia(mass: Scalar, width: Scalar, height: Scalar) -> (r: Scalar)
    ensures
        r@ == inertia_about_axis(mass@, width@, height@),
{
    let m: i128 = mass.raw() as i128;
    let squares: i128 = width.wide_mul(width) + height.wide_mul(height);
    proof {
        lemma_mul_bound(squares as int, m as int, 2 * (LIMIT * LIMIT), LIMIT as int);
        assert(2 * (LIMIT * LIMIT) * LIMIT == 2_000_000_000_000_000_000_000_000_000_000_000_000)
            by (nonlinear_arith)
            requires
                LIMIT == 1_000_000_000_000,
        ;
        assert(12 * (SCALE * SCALE) == 12_000_000_000_000) by (nonlinear_arith)
            requires
                SCALE == 1_000_000,
        ;
    }
    let twelve: i128 = 12_000_000_000_000;
    Scalar::from_wide(squares * m / twelve)
}

/// A shape with a body-space inertia tensor.
pub trait Collider {
    /// The inertia tensor of this shape at mass `mass`.
    spec fn inertia_tensor(&self, mass: int) -> M3;

    /// The inertia tensor of this shape at mass `mass`; a negative mass is
    /// refused.
    fn get_inertia(&self, mass: Scalar) -> (r: Result<Mat3, PhysicsError>)
        ensures
            r is Err <==> mass@ < 0,
            r matches Err(e) ==> e == PhysicsError::NegativeMass,
            r matches Ok(m) ==> m@ == self.inertia_tensor(mass@),
    ;
}

/// The mathematical value of a [`CuboidCollider`]: its raw dimensions.
pub struct CuboidModel {
    pub width: int,
    pub height: int,
    pub depth: int,
}

impl CuboidModel {
    /// Diagonal inertia tensor of the cuboid, its principal axes along the
    /// local frame: `(h^2+d^2) m/12`, `(w^2+d^2) m/12`, `(w^2+h^2) m/12`.
    pub open spec fn inertia(self, mass: int) -> M3 {
        M3::from_diagonal(
            V3::new(
                inertia_about_axis(mass, self.height, self.depth),
                inertia_about_axis(mass, self.width, self.depth),
                inertia_about_axis(mass, self.width, self.height),
            ),
        )
    }
}

/// A box with sides `width`, `height` and `depth`, all above zero.
#[derive(Clone, Copy, Debug)]
pub struct CuboidCollider {
    width: Scalar,
    height: Scalar,
    depth: Scalar,
}

impl View for CuboidCollider {
    type V = CuboidModel;

    closed spec fn view(&self) -> CuboidModel {
        CuboidModel { width: self.width@, height: self.height@, depth: self.depth@ }
    }
}

impl CuboidCollider {
    #[verifier::type_invariant]
    spec fn positive(self) -> bool {
        self.width@ > 0 && self.height@ > 0 && self.depth@ > 0
    }

    /// The cuboid with the given dimensions; one that is zero or below is
    /// refused.
    pub fn new(width: Scalar, height: Scalar, depth: Scalar) -> (r: Result<
        CuboidCollider,
        PhysicsError,
    >)
        ensures
            r is Ok <==> width@ > 0 && height@ > 0 && depth@ > 0,
            r matches Err(e) ==> e == PhysicsError::NonPositiveSize,
            r matches Ok(c) ==> c@ == (CuboidModel {
                width: width@,
                height: height@,
                depth: depth@,
            }),
    {
        if width.raw() > 0 && height.raw() > 0 && depth.raw() > 0 {
            Ok(CuboidCollider { width, height, depth })
        } else {
            Err(PhysicsError::NonPositiveSize)
        }
    }

    /// The dimensions: width, height, depth.
    pub fn size(&self) -> (r: Vec3)
        ensures
            r@ == V3::new(self@.width, self@.height, self@.depth),
            self@.width > 0 && self@.height > 0 && self@.depth > 0,
    {
        proof {
            use_type_invariant(self);
        }
        Vec3::new(self.width, self.height, self.depth)
    }
}

impl Collider for CuboidCollider {
    open spec fn inertia_tensor(&self, mass: int) -> M3 {
        self@.inertia(mass)
    }

    fn get_inertia(&self, mass: Scalar) -> (r: Result<Mat3, PhysicsError>) {
        if mass.is_negative() {
            return Err(PhysicsError::NegativeMass);
        }
        Ok(
            Mat3::from_diagonal(
                Vec3::new(
                    cuboid_inertia(mass, self.height, self.depth),
                    cuboid_inertia(mass, self.width, self.depth),
                    cuboid_inertia(mass, self.width, self.height),
                ),
            ),
        )
    }
}

} // verus!
