use vstd::prelude::*;

use crate::math::{finite_bits, is_finite_bits, is_negative_bits, is_positive_bits, negative_bits,
    positive_bits, Vec3};

verus! {

/// The shape of the optional scene obstacle.
#[derive(Clone, Copy, Debug, PartialEq, Eq, Structural)]
pub enum ClothObstacleKind {
    NoObstacle,
    Sphere,
    Capsule,
}

/// Why an obstacle configuration was refused.
#[derive(Clone, Copy, Debug, PartialEq, Eq, Structural)]
pub enum ClothObstacleError {
    InvalidCenter,
    InvalidRadius,
    InvalidThickness,
    InvalidCapsuleHalfLength,
}

/// The scene obstacle: its shape, centre, radius, contact thickness and, for a capsule, the
/// half-length of its axis along x. Every number is a binary64 bit pattern.
#[derive(Clone, Copy, Debug, PartialEq, Eq, Structural)]
pub struct ClothObstacleConfig {
    pub kind: ClothObstacleKind,
    pub center: Vec3,
    pub radius: u64,
    pub thickness: u64,
    pub capsule_half_length: u64,
}

/// Bit pattern of the default obstacle radius, `0.28`.
pub const DEFAULT_OBSTACLE_RADIUS: u64 = 0x3fd1_eb85_1eb8_51ec;

/// Bit pattern of the default obstacle contact thickness, `0.025`.
pub const DEFAULT_OBSTACLE_THICKNESS: u64 = 0x3f99_9999_9999_999a;

/// Bit pattern of the default capsule half-length, `0.52`.
pub const DEFAULT_CAPSULE_HALF_LENGTH: u64 = 0x3fe0_a3d7_0a3d_70a4;

/// The checks an obstacle passes before it becomes a collider, in the order they apply.
/// `shell_is_finite` tells whether `radius + thickness` is finite in binary64 arithmetic.
pub open spec fn obstacle_validation(
    config: ClothObstacleConfig,
    shell_is_finite: bool,
) -> Result<(), ClothObstacleError> {
    if config.kind == ClothObstacleKind::NoObstacle {
        Ok(())
    } else if !config.center.spec_is_finite() {
        Err(ClothObstacleError::InvalidCenter)
    } else if !(is_finite_bits(config.radius) && is_positive_bits(config.radius)) {
        Err(ClothObstacleError::InvalidRadius)
    } else if !is_finite_bits(config.thickness) || is_negative_bits(config.thickness)
        || !shell_is_finite {
        Err(ClothObstacleError::InvalidThickness)
    } else if config.kind == ClothObstacleKind::Capsule && !(is_finite_bits(
        config.capsule_half_length,
    ) && is_positive_bits(config.capsule_half_length)) {
        Err(ClothObstacleError::InvalidCapsuleHalfLength)
    } else {
        Ok(())
    }
}

impl ClothObstacleConfig {
    /// No obstacle, with the default sphere and capsule dimensions kept for when one is chosen.
    pub fn none() -> (config: Self)
        ensures
            config == (ClothObstacleConfig {
                kind: ClothObstacleKind::NoObstacle,
                center: Vec3 { x: 0, y: 0, z: 0 },
                radius: DEFAULT_OBSTACLE_RADIUS,
                thickness: DEFAULT_OBSTACLE_THICKNESS,
                capsule_half_length: DEFAULT_CAPSULE_HALF_LENGTH,
            }),
    {
        ClothObstacleConfig {
            kind: ClothObstacleKind::NoObstacle,
            center: Vec3::new(0, 0, 0),
            radius: DEFAULT_OBSTACLE_RADIUS,
            thickness: DEFAULT_OBSTACLE_THICKNESS,
            capsule_half_length: DEFAULT_CAPSULE_HALF_LENGTH,
        }
    }

    /// Checks an active obstacle before it becomes a collider: a finite centre, a finite positive
    /// radius, a finite non-negative thickness whose shell (`radius + thickness`, reported by the
    /// caller as `shell_is_finite`) is finite, and for a capsule a finite positive half-length.
    /// No obstacle is always accepted.
    pub fn validate(self, shell_is_finite: bool) -> (result: Result<(), ClothObstacleError>)
        ensures
            result == obstacle_validation(self, shell_is_finite),
    {
        if self.kind == ClothObstacleKind::NoObstacle {
            return Ok(());
        }
        if !self.center.is_finite() {
            return Err(ClothObstacleError::InvalidCenter);
        }
        if !finite_bits(self.radius) || !positive_bits(self.radius) {
            return Err(ClothObstacleError::InvalidRadius);
        }
        if !finite_bits(self.thickness) || negative_bits(self.thickness) || !shell_is_finite {
            return Err(ClothObstacleError::InvalidThickness);
        }
        if self.kind == ClothObstacleKind::Capsule && (!finite_bits(self.capsule_half_length)
            || !positive_bits(self.capsule_half_length)) {
            return Err(ClothObstacleError::InvalidCapsuleHalfLength);
        }
        Ok(())
    }
}

/// Without an obstacle there is nothing to collide with and nothing to refuse.
pub proof fn lemma_no_obstacle_always_accepted(config: ClothObstacleConfig, shell_is_finite: bool)
    requires
        config.kind == ClothObstacleKind::NoObstacle,
    ensures
        obstacle_validation(config, shell_is_finite) == Ok::<(), ClothObstacleError>(()),
{
}

} // verus!
