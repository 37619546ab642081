//! Fixed-point rigid-body dynamics: semi-implicit integration of bodies under
//! accumulated forces and torques, and a compliant distance constraint between
//! two attachment points.
//!
//! Every quantity is a decimal fixed-point [`scalar::Scalar`]; every operation
//! is total, rounds toward zero and saturates at the representable range, so
//! that a run is the same on every machine.
//!
//! * [`scalar`], [`vec3`], [`quat`], [`mat3`]: the arithmetic.
//! * [`collider`]: shapes and their inertia tensors.
//! * [`rigidbody`]: the state of a body and its integrator.
//! * [`spring`], [`distance_joint`]: the spring-damper law and the joint that
//!   applies it between two actors.
//! * [`simulation`]: configuration, the table of actors, and the phases of a
//!   tick.
//!
//! Each executable type has a mathematical value, its view, over unbounded
//! integers; every contract is stated over these.

pub mod scalar;
pub mod vec3;
pub mod quat;
pub mod mat3;
pub mod error;
pub mod collider;
pub mod simulation;
pub mod rigidbody;
pub mod spring;
pub mod distance_joint;
