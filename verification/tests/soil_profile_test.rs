//! Stratigraphy: layer depths, layer lookup and vertical stress. Lengths are
//! thousandths of a metre, unit weights thousandths of a tonne per cubic
//! metre, stresses millionths of a tonne per square metre.
use soilrust::models::soil_profile::{SoilLayer, SoilProfile};

/// Creates a reusable soil profile for testing.
fn setup_soil_profile() -> SoilProfile {
    SoilProfile::new(
        vec![
            SoilLayer {
                thickness: Some(2000),
                dry_unit_weight: Some(1800),
                saturated_unit_weight: Some(2000),
                ..Default::default()
            },
            SoilLayer {
                thickness: Some(3000),
                dry_unit_weight: Some(1600),
                saturated_unit_weight: Some(1900),
                ..Default::default()
            },
        ],
        2500, // Groundwater level at 2.5m
    )
}

#[test]
fn test_calc_layer_depths() {
    let profile = setup_soil_profile();
    assert_eq!(profile.layers[0].depth.unwrap(), 2000);
    assert_eq!(profile.layers[1].depth.unwrap(), 5000);
    assert_eq!(profile.layers[0].center.unwrap(), 1000);
    assert_eq!(profile.layers[1].center.unwrap(), 3500);
}

#[test]
fn test_get_layer_index() {
    let profile = setup_soil_profile();
    assert_eq!(profile.get_layer_index(1000), 0);
    assert_eq!(profile.get_layer_index(3000), 1);
    assert_eq!(profile.get_layer_index(5000), 1);
    // a query beyond the profile clamps to the last layer
    assert_eq!(profile.get_layer_index(10_000), 1);
    // a query exactly at a boundary belongs to the layer ending there
    assert_eq!(profile.get_layer_index(2000), 0);
}

#[test]
fn test_calc_normal_stress() {
    let profile = setup_soil_profile();

    assert_eq!(profile.calc_normal_stress(1000), 1_800_000);
    assert_eq!(profile.calc_normal_stress(2000), 3_600_000);
    assert_eq!(profile.calc_normal_stress(3000), 5_350_000);
}

#[test]
fn test_calc_effective_stress() {
    let profile = setup_soil_profile();

    assert_eq!(profile.calc_effective_stress(1000), 1_800_000);
    assert_eq!(profile.calc_effective_stress(2000), 3_600_000);
    // 5.35 - 0.5 * 0.981 = 4.8595
    assert_eq!(profile.calc_effective_stress(3000), 4_859_500);
}

// Total stress vanishes at the surface and never decreases with depth.
#[test]
fn test_normal_stress_monotone_and_zero_at_surface() {
    let profile = setup_soil_profile();
    assert_eq!(profile.calc_normal_stress(0), 0);
    let mut prev: i64 = 0;
    for d in [500i64, 1000, 1999, 2000, 2001, 2500, 4000, 5000, 7000] {
        let s = profile.calc_normal_stress(d);
        assert!(s >= prev);
        prev = s;
    }
}

// Effective stress equals total stress above the water table and is smaller
// below it by exactly the hydrostatic pore pressure.
#[test]
fn test_effective_stress_relation() {
    let profile = setup_soil_profile();
    for d in [0i64, 1000, 2500] {
        assert_eq!(profile.calc_effective_stress(d), profile.calc_normal_stress(d));
    }
    for d in [3000i64, 4000, 5000] {
        let pore = (d - 2500) * 981;
        assert_eq!(
            profile.calc_effective_stress(d),
            profile.calc_normal_stress(d) - pore
        );
        assert!(profile.calc_effective_stress(d) < profile.calc_normal_stress(d));
    }
}

#[test]
fn test_soil_profile_validate() {
    let profile = SoilProfile {
        layers: vec![],
        ground_water_level: Some(0),
    };
    let err = profile.validate(&["thickness"]).unwrap_err();
    assert_eq!(err.code, "soil_profile.empty");
    assert_eq!(err.message, "Soil profile must contain at least one layer.");

    let profile = setup_soil_profile();
    assert!(profile
        .validate(&["thickness", "dry_unit_weight", "saturated_unit_weight"])
        .is_ok());

    let err = profile.validate(&["cu"]).unwrap_err();
    assert_eq!(err.code, "soil_profile.cu.missing");
    assert_eq!(err.message, "cu must be provided.");

    let mut bad = setup_soil_profile();
    bad.layers[0].dry_unit_weight = Some(20_000);
    let err = bad.validate(&["dry_unit_weight"]).unwrap_err();
    assert_eq!(err.code, "soil_profile.dry_unit_weight.too_large.10000");
    assert_eq!(
        err.message,
        "dry_unit_weight must be less than or equal to 10000."
    );

    let err = profile.validate(&["no_such_field"]).unwrap_err();
    assert_eq!(err.code, "soil_profile.invalid_field");
    assert_eq!(err.message, "Field 'no_such_field' is not valid for SoilLayer.");
}

#[test]
fn test_soil_layer_new_and_default() {
    let layer = SoilLayer::new(2500);
    assert_eq!(layer.thickness, Some(2500));
    assert_eq!(layer.dry_unit_weight, None);
    assert_eq!(layer.depth, None);
    let d = SoilLayer::default();
    assert_eq!(d.thickness, None);
    assert_eq!(d.cu, None);
}
