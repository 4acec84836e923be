use cloth_lab::{
    ClothObstacleConfig, ClothObstacleError, ClothObstacleKind, MannequinAnimation, TextilePreset,
    Vec3,
};

fn v(x: f64, y: f64, z: f64) -> Vec3 {
    Vec3::new(x.to_bits(), y.to_bits(), z.to_bits())
}

/// Validates an obstacle the way the collider builder does: the shell `radius + thickness` is
/// computed in `f64` by the caller.
fn validate(config: ClothObstacleConfig) -> Result<(), ClothObstacleError> {
    let shell = f64::from_bits(config.radius) + f64::from_bits(config.thickness);
    config.validate(shell.is_finite())
}

#[test]
fn animation_keys_round_trip() {
    for animation in [MannequinAnimation::Rest, MannequinAnimation::Walk, MannequinAnimation::Wave] {
        assert_eq!(MannequinAnimation::from_key(animation.key()), Some(animation));
    }
    assert_eq!(MannequinAnimation::ALL, [MannequinAnimation::Rest, MannequinAnimation::Walk, MannequinAnimation::Wave]);
}

#[test]
fn animation_keys_and_names_are_stable() {
    assert_eq!(MannequinAnimation::Rest.key(), "rest");
    assert_eq!(MannequinAnimation::Walk.key(), "walk");
    assert_eq!(MannequinAnimation::Wave.key(), "wave");
    assert_eq!(MannequinAnimation::Rest.display_name(), "Rest");
    assert_eq!(MannequinAnimation::Walk.display_name(), "Walk");
    assert_eq!(MannequinAnimation::Wave.display_name(), "Wave");
}

#[test]
fn unknown_animation_keys_are_refused() {
    assert_eq!(MannequinAnimation::from_key("Walk"), None);
    assert_eq!(MannequinAnimation::from_key("walk "), None);
    assert_eq!(MannequinAnimation::from_key(""), None);
    assert_eq!(MannequinAnimation::from_key("run"), None);
}

#[test]
fn preset_names_are_stable_and_distinct() {
    assert_eq!(
        TextilePreset::ALL.map(TextilePreset::name),
        ["cotton-like", "denim-like", "silk-like", "leather-like"]
    );
    assert!(TextilePreset::CottonLike < TextilePreset::LeatherLike);
}

#[test]
fn none_is_always_accepted() {
    let none = ClothObstacleConfig::none();
    assert_eq!(none.kind, ClothObstacleKind::NoObstacle);
    assert_eq!(none.center, v(0.0, 0.0, 0.0));
    assert_eq!(none.radius, 0.28_f64.to_bits());
    assert_eq!(none.thickness, 0.025_f64.to_bits());
    assert_eq!(none.capsule_half_length, 0.52_f64.to_bits());
    assert_eq!(validate(none), Ok(()));
    let broken = ClothObstacleConfig { center: v(f64::NAN, 0.0, 0.0), ..none };
    assert_eq!(validate(broken), Ok(()));
}

#[test]
fn invalid_active_obstacles_fail_closed() {
    let base = ClothObstacleConfig {
        kind: ClothObstacleKind::Capsule,
        center: v(0.0, 0.0, 0.0),
        radius: 0.25_f64.to_bits(),
        thickness: 0.02_f64.to_bits(),
        capsule_half_length: 0.4_f64.to_bits(),
    };

    assert_eq!(
        validate(ClothObstacleConfig { center: v(f64::NAN, 0.0, 0.0), ..base }).unwrap_err(),
        ClothObstacleError::InvalidCenter
    );
    assert_eq!(
        validate(ClothObstacleConfig { radius: 0.0_f64.to_bits(), ..base }).unwrap_err(),
        ClothObstacleError::InvalidRadius
    );
    assert_eq!(
        validate(ClothObstacleConfig { thickness: (-0.01_f64).to_bits(), ..base }).unwrap_err(),
        ClothObstacleError::InvalidThickness
    );
    assert_eq!(
        validate(ClothObstacleConfig { capsule_half_length: 0.0_f64.to_bits(), ..base }).unwrap_err(),
        ClothObstacleError::InvalidCapsuleHalfLength
    );
}

#[test]
fn shell_overflow_and_sphere_half_length() {
    let sphere = ClothObstacleConfig {
        kind: ClothObstacleKind::Sphere,
        center: v(1.0, 2.0, 3.0),
        radius: f64::MAX.to_bits(),
        thickness: f64::MAX.to_bits(),
        capsule_half_length: 0.0_f64.to_bits(),
    };
    assert_eq!(validate(sphere).unwrap_err(), ClothObstacleError::InvalidThickness);
    let sphere = ClothObstacleConfig { radius: 0.3_f64.to_bits(), thickness: 0.0_f64.to_bits(), ..sphere };
    assert_eq!(validate(sphere), Ok(()));
    let negative_zero = ClothObstacleConfig { thickness: (-0.0_f64).to_bits(), ..sphere };
    assert_eq!(validate(negative_zero), Ok(()));
    let negative_radius = ClothObstacleConfig { radius: (-0.3_f64).to_bits(), ..sphere };
    assert_eq!(validate(negative_radius).unwrap_err(), ClothObstacleError::InvalidRadius);
}
