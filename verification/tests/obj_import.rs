use cloth_lab::{GarmentAsset, GarmentImportError, GarmentSourceFormat, ObjGarmentImporter, Vec3};

/// Imports OBJ text the way a caller does: the library lists the coordinate fields, the caller
/// decodes each as an `f64`, and the library builds the surface.
fn import_obj(source: &[u8]) -> Result<GarmentAsset, GarmentImportError> {
    let importer = ObjGarmentImporter;
    let fields = importer.coordinate_fields(source)?;
    let coordinates: Vec<Option<u64>> = fields
        .iter()
        .map(|field| field.iter().collect::<String>().parse::<f64>().ok().map(f64::to_bits))
        .collect();
    importer.import(source, &coordinates)
}

fn v(x: f64, y: f64, z: f64) -> Vec3 {
    Vec3::new(x.to_bits(), y.to_bits(), z.to_bits())
}

#[test]
fn imports_triangle_surface() {
    let source = b"v 0 0 0\nv 1 0 0\nv 0 1 0\nf 1 2 3\n";

    let asset = import_obj(source).expect("valid OBJ");

    assert_eq!(asset.source_format(), GarmentSourceFormat::Obj);
    assert_eq!(
        asset.positions(),
        &[v(0.0, 0.0, 0.0), v(1.0, 0.0, 0.0), v(0.0, 1.0, 0.0)]
    );
    assert_eq!(asset.triangles(), &[[0, 1, 2]]);
}

#[test]
fn triangulates_polygons_in_source_order() {
    let source = b"v 0 0 0\nv 1 0 0\nv 1 1 0\nv 0 1 0\nf 1 2 3 4\n";

    let asset = import_obj(source).expect("valid OBJ");

    assert_eq!(asset.triangles(), &[[0, 1, 2], [0, 2, 3]]);
}

#[test]
fn supports_relative_obj_indices() {
    let source = b"v 0 0 0\nv 1 0 0\nv 0 1 0\nf -3/-1 -2/-1 -1/-1\n";

    let asset = import_obj(source).expect("valid OBJ");

    assert_eq!(asset.triangles(), &[[0, 1, 2]]);
}

#[test]
fn rejects_non_finite_vertices_before_asset_creation() {
    let source = b"v NaN 0 0\nv 1 0 0\nv 0 1 0\nf 1 2 3\n";

    let error = import_obj(source).expect_err("must fail closed");

    assert_eq!(error, GarmentImportError::NonFiniteVertex { line: 1 });
}

#[test]
fn rejects_out_of_bounds_faces() {
    let source = b"v 0 0 0\nv 1 0 0\nv 0 1 0\nf 1 2 4\n";

    let error = import_obj(source).expect_err("must fail closed");

    assert_eq!(error, GarmentImportError::FaceIndexOutOfBounds { line: 4 });
}

#[test]
fn normalized_geometry_has_stable_fingerprint() {
    let source = b"v 0 0 0\nv 1 0 0\nv 0 1 0\nf 1 2 3\n";

    let first = import_obj(source).expect("valid OBJ");
    let second = import_obj(source).expect("valid OBJ");

    assert_eq!(first.simulation_fingerprint(), second.simulation_fingerprint());
}

#[test]
fn fingerprint_of_unit_triangle_is_the_fnv_hash_of_its_words() {
    let asset = import_obj(b"v 0 0 0\nv 1 0 0\nv 0 1 0\nf 1 2 3\n").unwrap();
    assert_eq!(asset.simulation_fingerprint(), 18155529470462384292);
}

#[test]
fn fingerprint_ignores_source_layout_but_not_geometry() {
    let plain = import_obj(b"v 0 0 0\nv 1 0 0\nv 0 1 0\nf 1 2 3\n").unwrap();
    let commented = import_obj(b"# garment\nv 0 0 0   \n\nv 1 0 0\nvn 0 0 1\nv 0 1 0\nf 1/1/1 2/2/2 3/3/3\n")
        .unwrap();
    let moved = import_obj(b"v 0 0 0\nv 2 0 0\nv 0 1 0\nf 1 2 3\n").unwrap();
    assert_eq!(plain.simulation_fingerprint(), commented.simulation_fingerprint());
    assert_ne!(plain.simulation_fingerprint(), moved.simulation_fingerprint());
}

#[test]
fn rejects_invalid_utf8() {
    assert_eq!(import_obj(b"v 0 0 0\xff\n").unwrap_err(), GarmentImportError::InvalidUtf8);
}

#[test]
fn rejects_missing_vertices_and_triangles() {
    assert_eq!(import_obj(b"# nothing\n").unwrap_err(), GarmentImportError::MissingVertices);
    assert_eq!(
        import_obj(b"v 0 0 0\nv 1 0 0\nv 0 1 0\n").unwrap_err(),
        GarmentImportError::MissingTriangles
    );
}

#[test]
fn rejects_malformed_vertices_and_faces_with_their_line() {
    assert_eq!(
        import_obj(b"v 0 0\n").unwrap_err(),
        GarmentImportError::InvalidVertex { line: 1 }
    );
    assert_eq!(
        import_obj(b"v 0 0 0\nv x 0 0\n").unwrap_err(),
        GarmentImportError::InvalidVertex { line: 2 }
    );
    assert_eq!(
        import_obj(b"v 0 0 0\nv 1 0 0\nf 1 2\n").unwrap_err(),
        GarmentImportError::InvalidFace { line: 3 }
    );
    assert_eq!(
        import_obj(b"v 0 0 0\nv 1 0 0\nv 0 1 0\nf 1 a 3\n").unwrap_err(),
        GarmentImportError::InvalidFaceIndex { line: 4 }
    );
    assert_eq!(
        import_obj(b"v 0 0 0\nv 1 0 0\nv 0 1 0\nf 1 0 3\n").unwrap_err(),
        GarmentImportError::InvalidFaceIndex { line: 4 }
    );
    assert_eq!(
        import_obj(b"v 0 0 0\nv 1 0 0\nv 0 1 0\nf 1 2 -4\n").unwrap_err(),
        GarmentImportError::FaceIndexOutOfBounds { line: 4 }
    );
    assert_eq!(
        import_obj(b"v 0 0 0\nv 1 0 0\nv 0 1 0\nf 1 2 2\n").unwrap_err(),
        GarmentImportError::DegenerateFace { line: 4 }
    );
}

#[test]
fn infinite_coordinates_are_rejected_as_non_finite() {
    assert_eq!(
        import_obj(b"v 0 inf 0\n").unwrap_err(),
        GarmentImportError::NonFiniteVertex { line: 1 }
    );
}

#[test]
fn coordinate_fields_lists_the_first_three_fields_of_each_vertex() {
    let fields = ObjGarmentImporter.coordinate_fields(b"v 1 2 3 4\nf 1 2 3\nv -1 0.5 x\n").unwrap();
    let texts: Vec<String> = fields.iter().map(|field| field.iter().collect()).collect();
    assert_eq!(texts, ["1", "2", "3", "-1", "0.5", "x"]);
}
