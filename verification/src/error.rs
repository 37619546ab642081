//! Why a body, a collider or a joint was refused at construction.

use vstd::prelude::*;

verus! {

/// A value that breaks an invariant of the data model.
#[derive(Clone, Copy, Debug, PartialEq, Eq, Structural)]
pub enum PhysicsError {
    /// A mass below zero.
    NegativeMass,
    /// A linear or angular damping coefficient below zero.
    NegativeDamping,
    /// A collider dimension that is zero or below.
    NonPositiveSize,
    /// A joint stiffness below zero.
    NegativeStiffness,
    /// A joint whose least permitted squared distance exceeds its greatest.
    InvertedDistanceBand,
}

} // verus!
