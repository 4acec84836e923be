use vstd::prelude::*;

use crate::math::{is_zero_bits, zero_bits, Vec3};

verus! {

/// Errors reported by cloth state operations.
#[derive(Clone, Copy, Debug, PartialEq, Eq, Structural)]
pub enum ClothError {
    InvalidParticleIndex,
}

/// One simulated cloth particle: current and previous position (position-based dynamics keeps
/// velocity implicit in their difference) and inverse mass, all as binary64 bit patterns.
///
/// A particle whose inverse mass is zero (of either sign) is pinned: the solver never moves it.
#[derive(Clone, Copy, Debug, PartialEq, Eq, Structural)]
pub struct Particle {
    pub position: Vec3,
    pub previous_position: Vec3,
    pub inverse_mass: u64,
}

impl Particle {
    /// The particle is pinned (its inverse mass is zero).
    pub open spec fn spec_is_pinned(&self) -> bool {
        is_zero_bits(self.inverse_mass)
    }

    /// Current position.
    pub fn position(&self) -> (position: Vec3)
        ensures
            position == self.position,
    {
        self.position
    }

    /// Position at the previous step.
    pub fn previous_position(&self) -> (position: Vec3)
        ensures
            position == self.previous_position,
    {
        self.previous_position
    }

    /// Inverse mass (bit pattern).
    pub fn inverse_mass(&self) -> (inverse_mass: u64)
        ensures
            inverse_mass == self.inverse_mass,
    {
        self.inverse_mass
    }

    /// Whether the particle is pinned.
    #[verifier::when_used_as_spec(spec_is_pinned)]
    pub fn is_pinned(&self) -> (pinned: bool)
        ensures
            pinned == self.spec_is_pinned(),
    {
        zero_bits(self.inverse_mass)
    }
}

} // verus!
