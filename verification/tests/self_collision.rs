use cloth_lab::{
    decode_vertex_triangle_pair, validate_self_collision_inputs, SelfCollisionConfig,
    SelfCollisionError, SelfCollisionParticle, SelfCollisionReport, SelfCollisionTopology, Vec3,
};

fn v(x: f64, y: f64, z: f64) -> Vec3 {
    Vec3::new(x.to_bits(), y.to_bits(), z.to_bits())
}

fn particle(x: f64, y: f64, z: f64, inverse_mass: f64) -> SelfCollisionParticle {
    SelfCollisionParticle { position: v(x, y, z), inverse_mass: inverse_mass.to_bits() }
}

fn fixture() -> (Vec<SelfCollisionParticle>, Vec<[usize; 3]>) {
    (
        vec![
            particle(-0.3, 0.0, 0.0, 0.0),
            particle(0.3, 0.0, 0.0, 0.0),
            particle(0.0, 0.0, 0.3, 0.0),
            particle(0.0, 0.01, 0.1, 1.0),
        ],
        vec![[0, 1, 2]],
    )
}

/// Whether a coordinate plus the thickness leaves the `f32` range of the shared broad phase.
fn out_of_range(particles: &[SelfCollisionParticle], thickness: f64) -> Vec<bool> {
    particles
        .iter()
        .map(|p| {
            [p.position.x, p.position.y, p.position.z]
                .iter()
                .any(|&bits| f64::from_bits(bits).abs() + thickness > f64::from(f32::MAX))
        })
        .collect()
}

fn validate(
    particles: &[SelfCollisionParticle],
    triangles: &[[usize; 3]],
    thickness: f64,
) -> Result<(), SelfCollisionError> {
    let config = SelfCollisionConfig { thickness: thickness.to_bits() };
    validate_self_collision_inputs(particles, triangles, config, &out_of_range(particles, thickness))
}

#[test]
fn invalid_thickness_is_reported_first() {
    let (particles, triangles) = fixture();
    assert_eq!(validate(&particles, &triangles, -0.1), Err(SelfCollisionError::InvalidThickness));
    assert_eq!(validate(&particles, &triangles, 0.0), Err(SelfCollisionError::InvalidThickness));
    assert_eq!(validate(&particles, &triangles, f64::NAN), Err(SelfCollisionError::InvalidThickness));
    assert_eq!(validate(&particles, &triangles, 0.08), Ok(()));
}

#[test]
fn particle_and_triangle_errors_are_found_in_order() {
    let (mut particles, triangles) = fixture();
    particles[1].inverse_mass = (-1.0_f64).to_bits();
    particles[2].position = v(f64::INFINITY, 0.0, 0.0);
    assert_eq!(validate(&particles, &triangles, 0.08), Err(SelfCollisionError::InvalidInverseMass));
    let (mut particles, _) = fixture();
    particles[0].position = v(f64::MAX, 0.0, 0.0);
    assert_eq!(validate(&particles, &triangles, 0.08), Err(SelfCollisionError::BroadPhaseRangeExceeded));
    let (particles, _) = fixture();
    assert_eq!(validate(&particles, &[[0, 1, 4]], 0.08), Err(SelfCollisionError::InvalidTriangleIndex));
    assert_eq!(validate(&particles, &[[0, 1, 1]], 0.08), Err(SelfCollisionError::DuplicateTriangleVertex));
    assert_eq!(
        validate(&particles, &[[0, 1, 1], [0, 1, 9]], 0.08),
        Err(SelfCollisionError::DuplicateTriangleVertex)
    );
}

#[test]
fn pairs_decode_in_either_order() {
    assert_eq!(decode_vertex_triangle_pair(3, 4, 4, 1), Some((3, 0)));
    assert_eq!(decode_vertex_triangle_pair(4, 3, 4, 1), Some((3, 0)));
    assert_eq!(decode_vertex_triangle_pair(0, 1, 4, 1), None);
    assert_eq!(decode_vertex_triangle_pair(4, 5, 4, 2), None);
    assert_eq!(decode_vertex_triangle_pair(2, 6, 4, 2), None);
}

#[test]
fn adjacency_excludes_corners_and_edge_neighbours() {
    let topology = SelfCollisionTopology::new(&[[0, 1, 2], [1, 3, 2]]);
    assert!(topology.is_adjacent_feature(0, [0, 1, 2]));
    assert!(topology.is_adjacent_feature(3, [0, 1, 2]));
    let far = SelfCollisionTopology::new(&[[0, 1, 2], [3, 4, 5]]);
    assert!(!far.is_adjacent_feature(3, [0, 1, 2]));
}

#[test]
fn candidate_pass_counts_and_excludes_local_features() {
    let (particles, triangles) = fixture();
    let topology = SelfCollisionTopology::new(&triangles);
    let pairs = [(0, 4), (1, 4), (2, 4), (4, 3), (0, 1)];
    let (report, candidates) = topology.narrow_phase_candidates(&pairs, particles.len(), &triangles);
    assert_eq!(report.broad_phase_pairs, 5);
    assert_eq!(report.vertex_triangle_candidates, 4);
    assert_eq!(report.adjacency_exclusions, 3);
    assert_eq!(report.narrow_phase_tests, 1);
    assert_eq!(report.projections, 0);
    assert_eq!(candidates, vec![(3, 0)]);
}

#[test]
fn reports_accumulate_componentwise() {
    let mut total = SelfCollisionReport {
        broad_phase_pairs: 1,
        vertex_triangle_candidates: 2,
        adjacency_exclusions: 3,
        narrow_phase_tests: 4,
        projections: 5,
    };
    total.accumulate(SelfCollisionReport {
        broad_phase_pairs: 10,
        vertex_triangle_candidates: 20,
        adjacency_exclusions: 30,
        narrow_phase_tests: 40,
        projections: 50,
    });
    assert_eq!(
        total,
        SelfCollisionReport {
            broad_phase_pairs: 11,
            vertex_triangle_candidates: 22,
            adjacency_exclusions: 33,
            narrow_phase_tests: 44,
            projections: 55,
        }
    );
    let mut zero = SelfCollisionReport::default();
    zero.accumulate(total);
    assert_eq!(zero, total);
}

#[test]
fn config_validation_matches_thickness_rules() {
    assert!(SelfCollisionConfig { thickness: 0.05_f64.to_bits() }.validate().is_ok());
    assert_eq!(
        SelfCollisionConfig { thickness: f64::INFINITY.to_bits() }.validate(),
        Err(SelfCollisionError::InvalidThickness)
    );
}
