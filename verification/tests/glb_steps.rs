use cloth_lab::{
    GarmentImportError, GlbBufferSource, GlbDocumentFacts, GlbGarmentImporter, GlbMeshFacts,
    GlbIndexRead, GlbNodeFacts, GlbPrimitiveFacts, GlbScenePlan, GlbStep, GlbStepGeometry, Vec3,
};
use cloth_lab::GarmentAsset;

fn facts() -> GlbDocumentFacts {
    GlbDocumentFacts {
        animation_count: 0,
        buffer_sources: vec![GlbBufferSource::Embedded],
        binary_chunk_length: Some(48),
        default_scene: None,
        scene_roots: vec![vec![0]],
    }
}

fn node(children: Vec<usize>, mesh: Option<usize>) -> GlbNodeFacts {
    GlbNodeFacts { children, skin: None, weight_count: None, mesh }
}

fn triangle_primitive() -> GlbPrimitiveFacts {
    GlbPrimitiveFacts { mode: 4, morph_target_count: 0, indices: None }
}

fn mesh(primitives: Vec<GlbPrimitiveFacts>) -> GlbMeshFacts {
    GlbMeshFacts { weight_count: None, primitives }
}

fn p(x: f64, y: f64, z: f64) -> Vec3 {
    Vec3::new(x.to_bits(), y.to_bits(), z.to_bits())
}

fn identity() -> [u64; 16] {
    let mut bits = [0.0_f64.to_bits(); 16];
    for k in [0, 5, 10, 15] {
        bits[k] = 1.0_f64.to_bits();
    }
    bits
}

fn node_geometry() -> (GlbIndexRead, GlbStepGeometry) {
    (
        GlbIndexRead::Unindexed,
        GlbStepGeometry { world_transform: identity(), positions: None, flat_triangles: Vec::new() },
    )
}

fn primitive_geometry(
    positions: Vec<Vec3>,
    indices: Option<Vec<u32>>,
    flat_triangles: Vec<bool>,
) -> (GlbIndexRead, GlbStepGeometry) {
    let read = match indices {
        Some(list) => GlbIndexRead::Listed(list),
        None => GlbIndexRead::Unindexed,
    };
    (read, GlbStepGeometry { world_transform: [0; 16], positions: Some(positions), flat_triangles })
}

fn assemble(
    plan: &GlbScenePlan,
    steps: Vec<(GlbIndexRead, GlbStepGeometry)>,
) -> Result<GarmentAsset, GarmentImportError> {
    let (reads, geometry): (Vec<GlbIndexRead>, Vec<GlbStepGeometry>) = steps.into_iter().unzip();
    GlbGarmentImporter::assemble(plan, &reads, &geometry)
}

fn unit_triangle() -> Vec<Vec3> {
    vec![p(0.0, 0.0, 0.0), p(1.0, 0.0, 0.0), p(0.0, 1.0, 0.0)]
}

fn one_primitive_plan() -> GlbScenePlan {
    GlbScenePlan {
        steps: vec![
            GlbStep::Node { node: 0, parent: None, depth: 0 },
            GlbStep::Primitive { visit: 0, mesh: 0, primitive: 0 },
        ],
        failure: None,
    }
}

#[test]
fn document_checks_run_in_order() {
    let mut f = facts();
    f.animation_count = 1;
    f.buffer_sources = vec![GlbBufferSource::External];
    assert_eq!(GlbGarmentImporter::select_scene(&f), Err(GarmentImportError::UnsupportedGlbAnimation));
    f.animation_count = 0;
    assert_eq!(GlbGarmentImporter::select_scene(&f), Err(GarmentImportError::ExternalGlbBuffer));
    f.buffer_sources = vec![GlbBufferSource::Embedded];
    f.binary_chunk_length = None;
    assert_eq!(GlbGarmentImporter::select_scene(&f), Err(GarmentImportError::MissingGlbBinaryChunk));
}

#[test]
fn scene_selection_prefers_the_default_then_a_single_scene() {
    let mut f = facts();
    assert_eq!(GlbGarmentImporter::select_scene(&f), Ok(0));
    f.scene_roots = vec![vec![0], vec![1]];
    assert_eq!(GlbGarmentImporter::select_scene(&f), Err(GarmentImportError::AmbiguousGlbScene));
    f.default_scene = Some(1);
    assert_eq!(GlbGarmentImporter::select_scene(&f), Ok(1));
    f.default_scene = None;
    f.scene_roots = Vec::new();
    assert_eq!(GlbGarmentImporter::select_scene(&f), Err(GarmentImportError::MissingGlbScene));
}

#[test]
fn walk_is_depth_first_in_document_order() {
    let nodes = vec![node(vec![1, 2], None), node(Vec::new(), Some(0)), node(Vec::new(), Some(0))];
    let meshes = vec![mesh(vec![triangle_primitive(), triangle_primitive()])];
    let plan = GlbGarmentImporter::plan_scene(&nodes, &meshes, &vec![0]);
    assert_eq!(plan.failure, None);
    assert_eq!(
        plan.steps,
        vec![
            GlbStep::Node { node: 0, parent: None, depth: 0 },
            GlbStep::Node { node: 1, parent: Some(0), depth: 1 },
            GlbStep::Primitive { visit: 1, mesh: 0, primitive: 0 },
            GlbStep::Primitive { visit: 1, mesh: 0, primitive: 1 },
            GlbStep::Node { node: 2, parent: Some(0), depth: 1 },
            GlbStep::Primitive { visit: 4, mesh: 0, primitive: 0 },
            GlbStep::Primitive { visit: 4, mesh: 0, primitive: 1 },
        ]
    );
}

#[test]
fn walk_stops_at_structural_errors() {
    let meshes = vec![mesh(vec![triangle_primitive()])];
    let mut skinned = node(Vec::new(), None);
    skinned.skin = Some(0);
    let plan = GlbGarmentImporter::plan_scene(&vec![skinned], &meshes, &vec![0]);
    assert_eq!(plan.failure, Some(GarmentImportError::UnsupportedGlbSkin));
    assert!(plan.steps.is_empty());

    let mut weighted = node(Vec::new(), None);
    weighted.weight_count = Some(2);
    let plan = GlbGarmentImporter::plan_scene(&vec![weighted], &meshes, &vec![0]);
    assert_eq!(plan.failure, Some(GarmentImportError::UnsupportedGlbMorphTargets));

    let morphing = vec![GlbMeshFacts { weight_count: Some(1), primitives: Vec::new() }];
    let plan = GlbGarmentImporter::plan_scene(&vec![node(Vec::new(), Some(0))], &morphing, &vec![0]);
    assert_eq!(plan.failure, Some(GarmentImportError::UnsupportedGlbMorphTargets));
    assert_eq!(plan.steps, vec![GlbStep::Node { node: 0, parent: None, depth: 0 }]);

    let mut targets = triangle_primitive();
    targets.morph_target_count = 1;
    let plan = GlbGarmentImporter::plan_scene(&vec![node(Vec::new(), Some(0))], &vec![mesh(vec![targets])], &vec![0]);
    assert_eq!(plan.failure, Some(GarmentImportError::UnsupportedGlbMorphTargets));

    let mut lines = triangle_primitive();
    lines.mode = 1;
    let plan = GlbGarmentImporter::plan_scene(&vec![node(Vec::new(), Some(0))], &vec![mesh(vec![lines])], &vec![0]);
    assert_eq!(plan.failure, Some(GarmentImportError::UnsupportedGlbPrimitiveMode));

    let plan = GlbGarmentImporter::plan_scene(&vec![node(vec![7], None)], &meshes, &vec![0]);
    assert_eq!(plan.failure, Some(GarmentImportError::InvalidGlb));
}

#[test]
fn hierarchy_deeper_than_the_limit_is_refused() {
    let chain = |length: usize| -> Vec<GlbNodeFacts> {
        (0..length)
            .map(|index| node(if index + 1 < length { vec![index + 1] } else { Vec::new() }, None))
            .collect()
    };
    let plan = GlbGarmentImporter::plan_scene(&chain(257), &Vec::new(), &vec![0]);
    assert_eq!(plan.failure, None);
    assert_eq!(plan.steps.len(), 257);
    let plan = GlbGarmentImporter::plan_scene(&chain(258), &Vec::new(), &vec![0]);
    assert_eq!(plan.failure, Some(GarmentImportError::GlbHierarchyTooDeep));
    assert_eq!(plan.steps.len(), 257);

    let cycle = vec![node(vec![0], None)];
    let plan = GlbGarmentImporter::plan_scene(&cycle, &Vec::new(), &vec![0]);
    assert_eq!(plan.failure, Some(GarmentImportError::GlbHierarchyTooDeep));
}

#[test]
fn assembly_offsets_each_primitive_after_the_vertices_before_it() {
        let plan = GlbScenePlan {
        steps: vec![
            GlbStep::Node { node: 0, parent: None, depth: 0 },
            GlbStep::Primitive { visit: 0, mesh: 0, primitive: 0 },
            GlbStep::Primitive { visit: 0, mesh: 0, primitive: 1 },
        ],
        failure: None,
    };
    let geometry = vec![
        node_geometry(),
        primitive_geometry(unit_triangle(), Some(vec![2, 1, 0]), vec![false]),
        primitive_geometry(unit_triangle(), None, vec![false]),
    ];
    let asset = assemble(&plan, geometry).unwrap();
    assert_eq!(asset.positions().len(), 6);
    assert_eq!(asset.triangles(), &[[2, 1, 0], [3, 4, 5]]);
}

#[test]
fn assembly_refuses_bad_geometry() {
    let plan = one_primitive_plan();
    let run = |steps: Vec<(GlbIndexRead, GlbStepGeometry)>| assemble(&plan, steps).unwrap_err();
    let indexed = |positions: Vec<Vec3>, indices: Vec<u32>, flat: Vec<bool>| {
        primitive_geometry(positions, Some(indices), flat)
    };

    let mut broken = node_geometry();
    broken.1.world_transform[3] = f64::NAN.to_bits();
    assert_eq!(
        run(vec![broken, indexed(unit_triangle(), vec![0, 1, 2], vec![false])]),
        GarmentImportError::NonFiniteGlbGeometry
    );
    let mut missing = indexed(unit_triangle(), vec![0, 1, 2], vec![false]);
    missing.1.positions = None;
    assert_eq!(run(vec![node_geometry(), missing]), GarmentImportError::MissingGlbPositions);
    let mut infinite = unit_triangle();
    infinite[1] = p(f64::INFINITY, 0.0, 0.0);
    assert_eq!(
        run(vec![node_geometry(), indexed(infinite, vec![0, 1, 2], vec![false])]),
        GarmentImportError::NonFiniteGlbGeometry
    );
    assert_eq!(
        run(vec![node_geometry(), indexed(Vec::new(), vec![0, 1, 2], vec![])]),
        GarmentImportError::MissingGlbPositions
    );
    assert_eq!(
        run(vec![node_geometry(), indexed(unit_triangle(), vec![0, 1], vec![])]),
        GarmentImportError::InvalidGlbIndices
    );
    assert_eq!(
        run(vec![node_geometry(), indexed(unit_triangle(), Vec::new(), vec![])]),
        GarmentImportError::InvalidGlbIndices
    );
    assert_eq!(
        run(vec![node_geometry(), indexed(unit_triangle(), vec![0, 1, 3], vec![false])]),
        GarmentImportError::InvalidGlbIndices
    );
    assert_eq!(
        run(vec![node_geometry(), indexed(unit_triangle(), vec![0, 1, 1], vec![false])]),
        GarmentImportError::DegenerateGlbTriangle
    );
    assert_eq!(
        run(vec![node_geometry(), indexed(unit_triangle(), vec![0, 1, 2], vec![true])]),
        GarmentImportError::DegenerateGlbTriangle
    );
    let mut unreadable = indexed(unit_triangle(), vec![0, 1, 2], vec![false]);
    unreadable.0 = GlbIndexRead::Unreadable;
    assert_eq!(run(vec![node_geometry(), unreadable.clone()]), GarmentImportError::InvalidGlbIndices);
    unreadable.1.positions = Some(Vec::new());
    assert_eq!(run(vec![node_geometry(), unreadable]), GarmentImportError::MissingGlbPositions);
}

#[test]
fn empty_scenes_are_refused_after_the_walk_error() {
    let empty = GlbScenePlan { steps: Vec::new(), failure: None };
    assert_eq!(
        assemble(&empty, Vec::new()).unwrap_err(),
        GarmentImportError::MissingVertices
    );
    let stopped = GlbScenePlan { steps: Vec::new(), failure: Some(GarmentImportError::UnsupportedGlbSkin) };
    assert_eq!(
        assemble(&stopped, Vec::new()).unwrap_err(),
        GarmentImportError::UnsupportedGlbSkin
    );
    let mut plan = one_primitive_plan();
    plan.failure = Some(GarmentImportError::UnsupportedGlbPrimitiveMode);
    let geometry = vec![node_geometry(), primitive_geometry(unit_triangle(), None, vec![true])];
    assert_eq!(
        assemble(&plan, geometry).unwrap_err(),
        GarmentImportError::DegenerateGlbTriangle
    );
}
