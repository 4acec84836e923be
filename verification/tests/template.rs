use cloth_lab::{
    regular_grid_triangles, GarmentTemplate, GarmentTemplateError, MAX_TEMPLATE_RESOLUTION,
    MIN_TEMPLATE_RESOLUTION,
};

#[test]
fn template_keys_round_trip_and_names_are_stable() {
    for template in GarmentTemplate::ALL {
        assert_eq!(GarmentTemplate::from_key(template.key()), Some(template));
        assert!(template.source_kind().starts_with("template-"));
        assert!(template.source_kind().ends_with(template.key()));
    }
    assert_eq!(
        GarmentTemplate::ALL.map(GarmentTemplate::key),
        ["sheet", "t-shirt", "cape", "skirt", "dress", "poncho"]
    );
    assert_eq!(GarmentTemplate::TShirt.display_name(), "T-shirt");
    assert_eq!(GarmentTemplate::from_key("shirt"), None);
    assert_eq!(GarmentTemplate::from_key("Sheet"), None);
    assert!(!GarmentTemplate::Sheet.uses_mannequin());
    assert!(GarmentTemplate::ALL[1..].iter().all(|template| template.uses_mannequin()));
    assert!(GarmentTemplate::Cape.summary().starts_with("Back drape"));
}

#[test]
fn resolution_is_bounded() {
    assert_eq!(MIN_TEMPLATE_RESOLUTION, 6);
    assert_eq!(MAX_TEMPLATE_RESOLUTION, 40);
    assert_eq!(
        GarmentTemplate::Sheet.grid_dimensions(5),
        Err(GarmentTemplateError::ResolutionOutOfRange)
    );
    assert_eq!(
        GarmentTemplate::Poncho.grid_dimensions(41),
        Err(GarmentTemplateError::ResolutionOutOfRange)
    );
    assert_eq!(GarmentTemplate::Sheet.grid_dimensions(14), Ok((14, 12)));
    assert_eq!(GarmentTemplate::TShirt.grid_dimensions(13), Ok((13, 11)));
    assert_eq!(GarmentTemplate::Cape.grid_dimensions(6), Ok((6, 8)));
    assert_eq!(GarmentTemplate::Skirt.grid_dimensions(40), Ok((40, 30)));
    assert_eq!(GarmentTemplate::Dress.grid_dimensions(6), Ok((6, 8)));
    assert_eq!(GarmentTemplate::Poncho.grid_dimensions(6), Ok((6, 7)));
}

#[test]
fn regular_grid_splits_each_cell_into_two_triangles() {
    assert_eq!(
        regular_grid_triangles(3, 2),
        vec![[0, 3, 1], [1, 3, 4], [1, 4, 2], [2, 4, 5]]
    );
    assert!(regular_grid_triangles(1, 5).is_empty());
    assert!(regular_grid_triangles(4, 1).is_empty());
    assert_eq!(regular_grid_triangles(6, 8).len(), 2 * 5 * 7);
}
