use cloth_lab::{
    ClothError, ClothInteractionError, GarmentAsset, GarmentImportError, ObjGarmentImporter,
    TriangleMeshCloth, TriangleMeshClothConfig, TriangleMeshClothError, TriangleMeshMeasures, Vec3,
};

fn v(x: f64, y: f64, z: f64) -> Vec3 {
    Vec3::new(x.to_bits(), y.to_bits(), z.to_bits())
}

fn config(particle_mass: f64, stretch_compliance: f64, bending_compliance: f64) -> TriangleMeshClothConfig {
    TriangleMeshClothConfig {
        particle_mass: particle_mass.to_bits(),
        stretch_compliance: stretch_compliance.to_bits(),
        bending_compliance: bending_compliance.to_bits(),
    }
}

fn point(v: Vec3) -> [f64; 3] {
    [f64::from_bits(v.x), f64::from_bits(v.y), f64::from_bits(v.z)]
}

/// The floating-point measurements construction needs, computed as the simulation does.
fn mesh_measures(
    positions: &[Vec3],
    triangles: &[[usize; 3]],
    config: TriangleMeshClothConfig,
) -> TriangleMeshMeasures {
    let flat_triangles = triangles
        .iter()
        .map(|t| {
            if t.iter().any(|&index| index >= positions.len()) {
                return false;
            }
            let (a, b, c) = (point(positions[t[0]]), point(positions[t[1]]), point(positions[t[2]]));
            let ab = [b[0] - a[0], b[1] - a[1], b[2] - a[2]];
            let ac = [c[0] - a[0], c[1] - a[1], c[2] - a[2]];
            let n = [
                ab[1] * ac[2] - ab[2] * ac[1],
                ab[2] * ac[0] - ab[0] * ac[2],
                ab[0] * ac[1] - ab[1] * ac[0],
            ];
            let finite = n.iter().all(|component| component.is_finite());
            !finite || n[0] * n[0] + n[1] * n[1] + n[2] * n[2] <= f64::EPSILON
        })
        .collect();
    let rest_lengths = TriangleMeshCloth::structural_edges(triangles)
        .iter()
        .map(|&(a, b)| {
            if a >= positions.len() || b >= positions.len() {
                return 0;
            }
            let (pa, pb) = (point(positions[a]), point(positions[b]));
            let d = [pa[0] - pb[0], pa[1] - pb[1], pa[2] - pb[2]];
            (d[0] * d[0] + d[1] * d[1] + d[2] * d[2]).sqrt().to_bits()
        })
        .collect();
    TriangleMeshMeasures {
        inverse_mass: (1.0 / f64::from_bits(config.particle_mass)).to_bits(),
        flat_triangles,
        rest_lengths,
    }
}

fn build(
    positions: &[Vec3],
    triangles: &[[usize; 3]],
    config: TriangleMeshClothConfig,
) -> Result<TriangleMeshCloth, TriangleMeshClothError> {
    let measures = mesh_measures(positions, triangles, config);
    TriangleMeshCloth::new(positions, triangles, config, &measures)
}

fn import_obj(source: &[u8]) -> Result<GarmentAsset, GarmentImportError> {
    let importer = ObjGarmentImporter;
    let fields = importer.coordinate_fields(source)?;
    let coordinates: Vec<Option<u64>> = fields
        .iter()
        .map(|field| field.iter().collect::<String>().parse::<f64>().ok().map(f64::to_bits))
        .collect();
    importer.import(source, &coordinates)
}

fn triangle_mesh_fixture() -> TriangleMeshCloth {
    build(
        &[v(0.0, 0.0, 0.0), v(1.0, 0.0, 0.0), v(0.0, 0.0, 1.0), v(1.0, 0.0, 1.0)],
        &[[0, 2, 1], [1, 2, 3]],
        config(1.0, 1.0e-7, 1.0e-3),
    )
    .expect("triangle mesh fixture must be valid")
}

fn mesh_fixture() -> TriangleMeshCloth {
    build(
        &[v(0.0, 0.0, 0.0), v(0.2, 0.0, 0.0), v(0.0, 0.0, 0.2)],
        &[[0, 2, 1]],
        config(2.0, 1.0e-7, 1.0e-3),
    )
    .expect("triangle-mesh interaction fixture must build")
}

#[test]
fn imported_obj_initializes_deterministic_triangle_mesh_cloth() {
    let source = b"v 0 0 0\nv 1 0 0\nv 0 0 1\nf 1 3 2\n";
    let asset = import_obj(source).expect("valid garment OBJ");
    let config = config(1.0, 1.0e-7, 1.0e-3);
    let first = build(asset.positions(), asset.triangles(), config)
        .expect("imported garment must initialize cloth");
    let second = build(asset.positions(), asset.triangles(), config)
        .expect("same imported garment must initialize cloth");

    assert_eq!(first.particles().len(), 3);
    assert_eq!(first.triangles(), asset.triangles());
    assert_eq!(first.state_fingerprint(), second.state_fingerprint());
}

#[test]
fn malformed_meshes_fail_closed() {
    let positions = [
        v(0.0, 0.0, 0.0),
        v(1.0, 0.0, 0.0),
        v(0.0, 0.0, 1.0),
        v(1.0, 0.0, 1.0),
        v(0.5, 1.0, 0.5),
    ];
    let config = config(1.0, 0.0, 0.0);

    assert_eq!(
        build(&positions[..3], &[[0, 1, 3]], config).unwrap_err(),
        TriangleMeshClothError::InvalidTriangleIndex
    );
    assert_eq!(
        build(&positions[..3], &[[0, 1, 1]], config).unwrap_err(),
        TriangleMeshClothError::DegenerateTriangle
    );
    assert_eq!(
        build(&[v(0.0, 0.0, 0.0), v(1.0, 0.0, 0.0), v(2.0, 0.0, 0.0)], &[[0, 1, 2]], config)
            .unwrap_err(),
        TriangleMeshClothError::DegenerateTriangle
    );
    assert_eq!(
        build(&positions[..4], &[[0, 1, 2], [0, 1, 3]], config).unwrap_err(),
        TriangleMeshClothError::InconsistentTriangleWinding
    );
    assert_eq!(
        build(&positions, &[[0, 1, 2], [1, 0, 3], [0, 1, 4]], config).unwrap_err(),
        TriangleMeshClothError::NonManifoldTopology
    );
}

#[test]
fn invalid_target_fails_closed() {
    let mut cloth = mesh_fixture();
    let drag = cloth.begin_particle_drag(1).unwrap();
    let before = cloth.particles()[1];

    let error = cloth
        .update_particle_drag(drag, v(f64::NAN, 0.0, 0.0))
        .expect_err("non-finite target must fail");

    assert_eq!(error, ClothInteractionError::InvalidTarget);
    assert_eq!(cloth.particles()[1], before);
}

#[test]
fn stretch_constraints_follow_real_mesh_edges_in_order() {
    let cloth = triangle_mesh_fixture();
    assert_eq!(cloth.particles().len(), 4);
    assert_eq!(cloth.triangles(), &[[0, 2, 1], [1, 2, 3]]);
    assert!(cloth.shear_constraints().is_empty());
    let edges = cloth
        .stretch_constraints()
        .iter()
        .map(|constraint| (constraint.particle_a, constraint.particle_b))
        .collect::<Vec<_>>();
    assert_eq!(edges, vec![(0, 1), (0, 2), (1, 2), (1, 3), (2, 3)]);
    assert_eq!(cloth.stretch_constraints()[1].rest_length, 1.0_f64.to_bits());
    assert_eq!(cloth.stretch_constraints()[2].rest_length, 2.0_f64.sqrt().to_bits());
    assert!(cloth.stretch_constraints().iter().all(|c| c.compliance == 1.0e-7_f64.to_bits() && c.lambda == 0));
}

#[test]
fn particles_start_at_rest_with_the_inverse_mass() {
    let cloth = mesh_fixture();
    for particle in cloth.particles() {
        assert_eq!(particle.position(), particle.previous_position());
        assert_eq!(particle.inverse_mass(), 0.5_f64.to_bits());
        assert!(!particle.is_pinned());
    }
}

#[test]
fn configuration_and_position_errors_come_first() {
    let positions = [v(0.0, 0.0, 0.0), v(1.0, 0.0, 0.0), v(0.0, 0.0, 1.0)];
    let triangles = [[0, 2, 1]];
    assert_eq!(build(&[], &triangles, config(1.0, 0.0, 0.0)).unwrap_err(), TriangleMeshClothError::EmptyMesh);
    assert_eq!(build(&positions, &[], config(1.0, 0.0, 0.0)).unwrap_err(), TriangleMeshClothError::EmptyMesh);
    assert_eq!(
        build(&positions, &triangles, config(0.0, 0.0, 0.0)).unwrap_err(),
        TriangleMeshClothError::InvalidParticleMass
    );
    assert_eq!(
        build(&positions, &triangles, config(f64::INFINITY, 0.0, 0.0)).unwrap_err(),
        TriangleMeshClothError::InvalidParticleMass
    );
    assert_eq!(
        build(&positions, &triangles, config(1.0, -1.0, 0.0)).unwrap_err(),
        TriangleMeshClothError::InvalidCompliance
    );
    assert_eq!(
        build(&positions, &triangles, config(1.0, 0.0, f64::NAN)).unwrap_err(),
        TriangleMeshClothError::InvalidCompliance
    );
    assert_eq!(
        build(&[v(0.0, 0.0, 0.0), v(1.0, f64::NAN, 0.0), v(0.0, 0.0, 1.0)], &triangles, config(1.0, 0.0, 0.0))
            .unwrap_err(),
        TriangleMeshClothError::InvalidParticlePosition
    );
    assert!(build(&positions, &triangles, config(1.0, -0.0, 0.0)).is_ok());
}

#[test]
fn pin_makes_a_particle_kinematic_at_rest() {
    let mut cloth = triangle_mesh_fixture();
    assert_eq!(cloth.pin(7), Err(ClothError::InvalidParticleIndex));
    cloth.pin(0).unwrap();
    assert_eq!(cloth.particles()[0].inverse_mass(), 0);
    assert!(cloth.particles()[0].is_pinned());
    assert_eq!(cloth.particles()[0].previous_position(), cloth.particles()[0].position());
    assert!(!cloth.particles()[1].is_pinned());
}

#[test]
fn state_fingerprint_is_the_fnv_hash_of_the_state_words() {
    let asset = import_obj(b"v 0 0 0\nv 1 0 0\nv 0 0 1\nf 1 3 2\n").unwrap();
    let cloth = build(asset.positions(), asset.triangles(), config(1.0, 1.0e-7, 1.0e-3)).unwrap();
    assert_eq!(cloth.state_fingerprint(), 7045057774957639102);
}

#[test]
fn drag_holds_the_particle_and_release_restores_its_mass() {
    let mut cloth = mesh_fixture();
    let original_inverse_mass = cloth.particles()[2].inverse_mass();
    let drag = cloth.begin_particle_drag(2).expect("drag must start");
    assert_eq!(drag.particle_index(), 2);
    assert!(cloth.particles()[2].is_pinned());
    assert_eq!(
        cloth.begin_particle_drag(2).unwrap_err(),
        ClothInteractionError::AlreadyKinematic
    );
    let target = v(-0.2, 0.4, 0.3);
    cloth.update_particle_drag(drag, target).expect("drag target must update");
    assert_eq!(cloth.particles()[2].position(), target);
    assert_eq!(cloth.particles()[2].previous_position(), target);
    cloth.end_particle_drag(drag).expect("drag must end");
    assert_eq!(cloth.particles()[2].inverse_mass(), original_inverse_mass);
    assert_eq!(cloth.particles()[2].previous_position(), target);
    assert_eq!(
        cloth.end_particle_drag(drag).unwrap_err(),
        ClothInteractionError::DragStateMismatch
    );
}

#[test]
fn drag_errors_name_the_failing_check() {
    let mut cloth = mesh_fixture();
    assert_eq!(
        cloth.begin_particle_drag(3).unwrap_err(),
        ClothInteractionError::InvalidParticleIndex
    );
    let drag = cloth.begin_particle_drag(0).unwrap();
    let mut other = mesh_fixture();
    assert_eq!(
        other.update_particle_drag(drag, v(0.0, 0.0, 0.0)).unwrap_err(),
        ClothInteractionError::DragStateMismatch
    );
    assert_eq!(
        other.end_particle_drag(drag).unwrap_err(),
        ClothInteractionError::DragStateMismatch
    );
}

#[test]
fn drag_replay_leaves_identical_state() {
    let mut first = mesh_fixture();
    let mut second = mesh_fixture();
    let first_drag = first.begin_particle_drag(1).unwrap();
    let second_drag = second.begin_particle_drag(1).unwrap();
    for target in [v(0.2, 0.1, 0.0), v(0.25, 0.15, -0.05), v(0.3, 0.2, -0.1)] {
        first.update_particle_drag(first_drag, target).unwrap();
        second.update_particle_drag(second_drag, target).unwrap();
    }
    first.end_particle_drag(first_drag).unwrap();
    second.end_particle_drag(second_drag).unwrap();
    assert_eq!(first.particles(), second.particles());
    assert_eq!(first.state_fingerprint(), second.state_fingerprint());
}

#[test]
fn clones_compare_equal_until_one_changes() {
    let cloth = triangle_mesh_fixture();
    let mut copy = cloth.clone();
    assert!(copy == cloth);
    assert_eq!(copy.state_fingerprint(), cloth.state_fingerprint());
    copy.pin(1).unwrap();
    assert!(copy != cloth);
    let asset = import_obj(b"v 0 0 0\nv 1 0 0\nv 0 0 1\nf 1 3 2\n").unwrap();
    assert!(asset.clone() == asset);
    let other = import_obj(b"v 0 0 0\nv 1 0 0\nv 0 0 1\nf 1 2 3\n").unwrap();
    assert!(other != asset);
}
