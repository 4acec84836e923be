use cloth_lab::{
    GarmentAsset, GarmentImportError, GarmentSourceFormat, GlbAccessorLayout, GlbDocument,
    GlbGarmentImporter, GlbIndexRead, GlbScenePlan, GlbSparseLayout, GlbStep, GlbStepGeometry,
    GlbViewLayout, TriangleMeshCloth, TriangleMeshClothConfig, TriangleMeshMeasures, Vec3,
};

type Matrix4 = [[f64; 4]; 4];

const IDENTITY_MATRIX: Matrix4 = [
    [1.0, 0.0, 0.0, 0.0],
    [0.0, 1.0, 0.0, 0.0],
    [0.0, 0.0, 1.0, 0.0],
    [0.0, 0.0, 0.0, 1.0],
];

fn multiply_matrices(left: Matrix4, right: Matrix4) -> Matrix4 {
    let mut product = [[0.0; 4]; 4];
    for column in 0..4 {
        for row in 0..4 {
            product[column][row] = (0..4)
                .map(|index| left[index][row] * right[column][index])
                .sum();
        }
    }
    product
}

fn transform_position(matrix: Matrix4, [x, y, z]: [f32; 3]) -> [f64; 3] {
    let [x, y, z] = [f64::from(x), f64::from(y), f64::from(z)];
    [
        matrix[0][0] * x + matrix[1][0] * y + matrix[2][0] * z + matrix[3][0],
        matrix[0][1] * x + matrix[1][1] * y + matrix[2][1] * z + matrix[3][1],
        matrix[0][2] * x + matrix[1][2] * y + matrix[2][2] * z + matrix[3][2],
    ]
}

fn area_squared(a: [f64; 3], b: [f64; 3], c: [f64; 3]) -> f64 {
    let ab = [b[0] - a[0], b[1] - a[1], b[2] - a[2]];
    let ac = [c[0] - a[0], c[1] - a[1], c[2] - a[2]];
    let x = ab[1] * ac[2] - ab[2] * ac[1];
    let y = ab[2] * ac[0] - ab[0] * ac[2];
    let z = ab[0] * ac[1] - ab[1] * ac[0];
    x * x + y * y + z * z
}

/// The floating-point part of `.glb` import: world transforms and world positions per step.
fn step_geometry(document: &GlbDocument, plan: &GlbScenePlan) -> Vec<GlbStepGeometry> {
    let gltf = document.gltf();
    let reads = document.index_reads(plan);
    let nodes: Vec<gltf::Node> = gltf.nodes().collect();
    let meshes: Vec<gltf::Mesh> = gltf.meshes().collect();
    let mut worlds: Vec<Matrix4> = Vec::new();
    let mut geometry = Vec::new();
    for step in &plan.steps {
        match *step {
            GlbStep::Node { node, parent, .. } => {
                let parent_world = parent.map_or(IDENTITY_MATRIX, |visit| worlds[visit]);
                let local = nodes[node].transform().matrix().map(|column| column.map(f64::from));
                let world = multiply_matrices(parent_world, local);
                let mut bits = [0_u64; 16];
                for (k, value) in world.iter().flatten().enumerate() {
                    bits[k] = value.to_bits();
                }
                worlds.push(world);
                geometry.push(GlbStepGeometry {
                    world_transform: bits,
                    positions: None,
                    flat_triangles: Vec::new(),
                });
            }
            GlbStep::Primitive { visit, mesh, primitive } => {
                worlds.push(IDENTITY_MATRIX);
                let world = worlds[visit];
                let primitive_json = meshes[mesh].primitives().nth(primitive).unwrap();
                let reader = primitive_json.reader(|_| gltf.blob.as_deref());
                let points: Option<Vec<[f64; 3]>> = reader
                    .read_positions()
                    .map(|positions| positions.map(|p| transform_position(world, p)).collect());
                let count = points.as_ref().map_or(0, Vec::len);
                let local: Vec<usize> = match &reads[geometry.len()] {
                    GlbIndexRead::Listed(list) => list.iter().map(|&index| index as usize).collect(),
                    GlbIndexRead::Unindexed => (0..count).collect(),
                    GlbIndexRead::Unreadable => Vec::new(),
                };
                let flat_triangles = local
                    .chunks(3)
                    .map(|corners| match &points {
                        Some(points) => {
                            corners.len() == 3
                                && corners.iter().all(|&index| index < points.len())
                                && area_squared(
                                    points[corners[0]],
                                    points[corners[1]],
                                    points[corners[2]],
                                ) <= f64::EPSILON
                        }
                        None => false,
                    })
                    .collect();
                geometry.push(GlbStepGeometry {
                    world_transform: [0; 16],
                    positions: points.map(|points| {
                        points
                            .iter()
                            .map(|p| Vec3::new(p[0].to_bits(), p[1].to_bits(), p[2].to_bits()))
                            .collect()
                    }),
                    flat_triangles,
                });
            }
        }
    }
    geometry
}

fn import_glb(bytes: &[u8]) -> Result<GarmentAsset, GarmentImportError> {
    let document = GlbGarmentImporter.open(bytes)?;
    let plan = document.plan();
    let geometry = step_geometry(&document, &plan);
    document.assemble(&plan, &geometry)
}

fn v(x: f64, y: f64, z: f64) -> Vec3 {
    Vec3::new(x.to_bits(), y.to_bits(), z.to_bits())
}

fn triangle_glb(mode: u32, indexed: bool, embedded_buffer: bool) -> Vec<u8> {
    let mut binary = Vec::new();
    for component in [0.0_f32, 0.0, 0.0, 1.0, 0.0, 0.0, 0.0, 1.0, 0.0] {
        binary.extend_from_slice(&component.to_le_bytes());
    }
    if indexed {
        for index in [0_u16, 1, 2] {
            binary.extend_from_slice(&index.to_le_bytes());
        }
    }

    let indices_view = if indexed {
        r#",{"buffer":0,"byteOffset":36,"byteLength":6}"#
    } else {
        ""
    };
    let indices_accessor = if indexed {
        r#",{"bufferView":1,"componentType":5123,"count":3,"type":"SCALAR"}"#
    } else {
        ""
    };
    let primitive_indices = if indexed { r#","indices":1"# } else { "" };
    let buffer = if embedded_buffer {
        format!(r#"{{"byteLength":{}}}"#, binary.len())
    } else {
        format!(r#"{{"byteLength":{},"uri":"mesh.bin"}}"#, binary.len())
    };
    let json = format!(
        r#"{{"asset":{{"version":"2.0"}},"buffers":[{buffer}],"bufferViews":[{{"buffer":0,"byteOffset":0,"byteLength":36}}{indices_view}],"accessors":[{{"bufferView":0,"componentType":5126,"count":3,"type":"VEC3","min":[0,0,0],"max":[1,1,0]}}{indices_accessor}],"meshes":[{{"primitives":[{{"attributes":{{"POSITION":0}}{primitive_indices},"mode":{mode}}}]}}],"nodes":[{{"mesh":0,"translation":[2,3,4]}}],"scenes":[{{"nodes":[0]}}],"scene":0}}"#,
    );

    if embedded_buffer {
        build_glb(&json, Some(&binary))
    } else {
        build_glb(&json, None)
    }
}

fn build_glb(json: &str, binary: Option<&[u8]>) -> Vec<u8> {
    let mut json_chunk = json.as_bytes().to_vec();
    while json_chunk.len() % 4 != 0 {
        json_chunk.push(b' ');
    }
    let mut binary_chunk = binary.unwrap_or_default().to_vec();
    while binary_chunk.len() % 4 != 0 {
        binary_chunk.push(0);
    }

    let binary_chunk_size = binary.map_or(0, |_| 8 + binary_chunk.len());
    let total_length = 12 + 8 + json_chunk.len() + binary_chunk_size;
    let mut output = Vec::with_capacity(total_length);
    output.extend_from_slice(b"glTF");
    output.extend_from_slice(&2_u32.to_le_bytes());
    output.extend_from_slice(&(total_length as u32).to_le_bytes());
    output.extend_from_slice(&(json_chunk.len() as u32).to_le_bytes());
    output.extend_from_slice(&0x4e4f_534a_u32.to_le_bytes());
    output.extend_from_slice(&json_chunk);
    if binary.is_some() {
        output.extend_from_slice(&(binary_chunk.len() as u32).to_le_bytes());
        output.extend_from_slice(&0x004e_4942_u32.to_le_bytes());
        output.extend_from_slice(&binary_chunk);
    }
    output
}

fn mesh_measures(
    positions: &[Vec3],
    triangles: &[[usize; 3]],
    config: TriangleMeshClothConfig,
) -> TriangleMeshMeasures {
    let point = |v: Vec3| [f64::from_bits(v.x), f64::from_bits(v.y), f64::from_bits(v.z)];
    let flat_triangles = triangles
        .iter()
        .map(|t| {
            if t.iter().any(|&index| index >= positions.len()) {
                return false;
            }
            let area = area_squared(point(positions[t[0]]), point(positions[t[1]]), point(positions[t[2]]));
            !area.is_finite() || area <= f64::EPSILON
        })
        .collect();
    let rest_lengths = TriangleMeshCloth::structural_edges(triangles)
        .iter()
        .map(|&(a, b)| {
            if a >= positions.len() || b >= positions.len() {
                return 0;
            }
            let (pa, pb) = (point(positions[a]), point(positions[b]));
            let d = [pa[0] - pb[0], pa[1] - pb[1], pa[2] - pb[2]];
            (d[0] * d[0] + d[1] * d[1] + d[2] * d[2]).sqrt().to_bits()
        })
        .collect();
    TriangleMeshMeasures {
        inverse_mass: (1.0 / f64::from_bits(config.particle_mass)).to_bits(),
        flat_triangles,
        rest_lengths,
    }
}

#[test]
fn imports_transformed_static_triangle_from_glb() {
    let bytes = triangle_glb(4, true, true);
    let asset = import_glb(&bytes).expect("valid GLB garment");

    assert_eq!(asset.source_format(), GarmentSourceFormat::Glb);
    assert_eq!(
        asset.positions(),
        &[v(2.0, 3.0, 4.0), v(3.0, 3.0, 4.0), v(2.0, 4.0, 4.0)]
    );
    assert_eq!(asset.triangles(), &[[0, 1, 2]]);
}

#[test]
fn imports_unindexed_triangle_mode() {
    let bytes = triangle_glb(4, false, true);
    let asset = import_glb(&bytes).expect("valid unindexed GLB garment");

    assert_eq!(asset.triangles(), &[[0, 1, 2]]);
}

#[test]
fn imported_glb_enters_triangle_mesh_simulation_deterministically() {
    let bytes = triangle_glb(4, true, true);
    let asset = import_glb(&bytes).expect("valid GLB garment");
    let config = TriangleMeshClothConfig {
        particle_mass: 1.0_f64.to_bits(),
        stretch_compliance: 1.0e-7_f64.to_bits(),
        bending_compliance: 1.0e-3_f64.to_bits(),
    };
    let measures = mesh_measures(asset.positions(), asset.triangles(), config);
    let first = TriangleMeshCloth::new(asset.positions(), asset.triangles(), config, &measures)
        .expect("GLB garment must initialize cloth");
    let second = TriangleMeshCloth::new(asset.positions(), asset.triangles(), config, &measures)
        .expect("same GLB garment must initialize cloth");

    assert_eq!(first.state_fingerprint(), second.state_fingerprint());
    assert_eq!(
        import_glb(&bytes).unwrap().simulation_fingerprint(),
        asset.simulation_fingerprint()
    );
}

#[test]
fn rejects_non_triangle_primitive_mode() {
    let bytes = triangle_glb(1, true, true);
    let error = import_glb(&bytes).expect_err("line mode must not be interpreted as cloth triangles");

    assert_eq!(error, GarmentImportError::UnsupportedGlbPrimitiveMode);
}

#[test]
fn rejects_external_geometry_buffer_and_plain_json_gltf() {
    let external = triangle_glb(4, true, false);
    assert_eq!(import_glb(&external).unwrap_err(), GarmentImportError::ExternalGlbBuffer);
    assert_eq!(
        import_glb(br#"{"asset":{"version":"2.0"}}"#).unwrap_err(),
        GarmentImportError::InvalidGlb
    );
}

#[test]
fn magic_check_reads_only_the_first_four_bytes() {
    assert!(GlbGarmentImporter::has_glb_magic(b"glTF"));
    assert!(GlbGarmentImporter::has_glb_magic(b"glTF\x02\x00"));
    assert!(!GlbGarmentImporter::has_glb_magic(b"glT"));
    assert!(!GlbGarmentImporter::has_glb_magic(b"GLTF"));
}

#[test]
fn truncated_binary_is_invalid() {
    let bytes = triangle_glb(4, true, true);
    assert_eq!(import_glb(&bytes[..20]).unwrap_err(), GarmentImportError::InvalidGlb);
}

#[test]
fn scene_walk_visits_the_node_then_its_primitive() {
    let bytes = triangle_glb(4, true, true);
    let document = GlbGarmentImporter.open(&bytes).unwrap();
    let plan = document.plan();
    assert_eq!(document.scene(), 0);
    assert_eq!(plan.failure, None);
    assert_eq!(
        plan.steps,
        vec![
            GlbStep::Node { node: 0, parent: None, depth: 0 },
            GlbStep::Primitive { visit: 0, mesh: 0, primitive: 0 },
        ]
    );
}

#[test]
fn glb_source_format_is_glb() {
    assert_eq!(GlbGarmentImporter.source_format(), GarmentSourceFormat::Glb);
}

fn replace_bytes(bytes: &mut [u8], from: &[u8], to: &[u8]) {
    let at = bytes.windows(from.len()).position(|window| window == from).unwrap();
    bytes[at..at + to.len()].copy_from_slice(to);
}

#[test]
fn header_shorter_than_itself_is_invalid() {
    let mut bytes = triangle_glb(4, true, true);
    bytes[8..12].copy_from_slice(&4_u32.to_le_bytes());
    assert!(!GlbGarmentImporter::header_is_sound(&bytes));
    assert_eq!(import_glb(&bytes).unwrap_err(), GarmentImportError::InvalidGlb);
    assert!(GlbGarmentImporter::header_is_sound(&triangle_glb(4, true, true)));
    assert!(GlbGarmentImporter::header_is_sound(br#"{"asset":{"version":"2.0"}}"#));
}

#[test]
fn position_attribute_naming_a_missing_accessor_is_invalid() {
    let mut bytes = triangle_glb(4, true, true);
    replace_bytes(&mut bytes, br#""POSITION":0"#, br#""POSITION":7"#);
    assert_eq!(import_glb(&bytes).unwrap_err(), GarmentImportError::InvalidGlb);
}

#[test]
fn opened_document_exposes_its_facts() {
    let bytes = triangle_glb(4, true, true);
    let document = GlbGarmentImporter.open(&bytes).unwrap();
    assert_eq!(document.meshes().len(), 1);
    assert_eq!(document.meshes()[0].primitives, vec![cloth_lab::GlbPrimitiveFacts { mode: 4, morph_target_count: 0, indices: Some(1) }]);
    assert_eq!(document.gltf().nodes().len(), 1);
}

#[test]
fn index_lists_are_read_from_the_document_bytes() {
    let bytes = triangle_glb(4, true, true);
    let document = GlbGarmentImporter.open(&bytes).unwrap();
    let plan = document.plan();
    let reads = document.index_reads(&plan);
    assert_eq!(reads.len(), 2);
    assert!(matches!(reads[0], GlbIndexRead::Unindexed));
    assert!(matches!(&reads[1], GlbIndexRead::Listed(list) if list == &vec![0, 1, 2]));

    let unindexed = triangle_glb(4, false, true);
    let document = GlbGarmentImporter.open(&unindexed).unwrap();
    let reads = document.index_reads(&document.plan());
    assert!(matches!(reads[1], GlbIndexRead::Unindexed));
}

#[test]
fn reordered_index_bytes_reorder_the_triangle() {
    let mut bytes = triangle_glb(4, true, true);
    let end = bytes.len();
    bytes[end - 8..end - 2].copy_from_slice(&[2, 0, 1, 0, 0, 0]);
    let asset = import_glb(&bytes).unwrap();
    assert_eq!(asset.triangles(), &[[2, 1, 0]]);
}

#[test]
fn index_accessor_the_reader_cannot_read_is_refused() {
    let mut float_indices = triangle_glb(4, true, true);
    replace_bytes(&mut float_indices, br#""componentType":5123"#, br#""componentType":5126"#);
    let document = GlbGarmentImporter.open(&float_indices).unwrap();
    assert!(matches!(document.index_reads(&document.plan())[1], GlbIndexRead::Unreadable));
    assert_eq!(import_glb(&float_indices).unwrap_err(), GarmentImportError::InvalidGlbIndices);

    let mut empty_indices = triangle_glb(4, true, true);
    replace_bytes(&mut empty_indices, br#""count":3,"type":"SCALAR""#, br#""count":0,"type":"SCALAR""#);
    assert_eq!(import_glb(&empty_indices).unwrap_err(), GarmentImportError::InvalidGlbIndices);
}

#[test]
fn index_layout_safety_follows_the_reader() {
    let views = vec![
        GlbViewLayout { offset: 0, length: 36, stride: None },
        GlbViewLayout { offset: 36, length: 6, stride: Some(4) },
    ];
    let dense = |component_type: u32, multiplicity: usize, count: usize| GlbAccessorLayout {
        component_type,
        multiplicity,
        count,
        offset: 0,
        view: Some(0),
    };
    let safe = |accessor: GlbAccessorLayout, sparse: Option<GlbSparseLayout>| {
        GlbGarmentImporter::index_read_safe(&vec![accessor], &vec![sparse], &views, 0)
    };
    assert!(safe(dense(5123, 1, 3), None));
    assert!(safe(dense(5121, 1, 1), None));
    assert!(!safe(dense(5126, 1, 3), None));
    assert!(!safe(dense(5122, 1, 3), None));
    assert!(!safe(dense(5125, 3, 3), None));
    assert!(!safe(dense(5125, 1, 0), None));
    assert!(!safe(GlbAccessorLayout { view: Some(2), ..dense(5125, 1, 3) }, None));
    assert!(!safe(GlbAccessorLayout { offset: usize::MAX, ..dense(5121, 1, 2) }, None));
    assert!(!GlbGarmentImporter::index_read_safe(&vec![dense(5123, 1, 3)], &vec![None], &views, 1));
    let part = GlbSparseLayout {
        count: 1,
        index_size: 1,
        indices_offset: 0,
        indices_view: 1,
        values_offset: 4,
        values_view: 1,
    };
    assert!(safe(GlbAccessorLayout { view: None, ..dense(5123, 3, 5) }, Some(part)));
    assert!(!safe(dense(5123, 1, 5), Some(GlbSparseLayout { count: 0, ..part })));
    assert!(!safe(dense(5125, 1, 5), Some(GlbSparseLayout { values_view: 9, ..part })));
    assert!(!safe(GlbAccessorLayout { view: None, ..dense(5123, 1, 1 << 32) }, Some(part)));
    assert!(!GlbGarmentImporter::view_read_safe(&views, 1, 0, 2, 8));
    assert!(GlbGarmentImporter::view_read_safe(&views, 1, 0, 2, 4));
}
