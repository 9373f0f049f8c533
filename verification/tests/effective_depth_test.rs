//! The bisection solver for the zone-of-influence boundary. Lengths are
//! thousandths of a metre, pressures millionths of a tonne per square metre.
use soilrust::effective_depth::calc_effective_depth;
use soilrust::models::foundation::Foundation;
use soilrust::models::soil_profile::{SoilLayer, SoilProfile};

fn create_soil_profile() -> SoilProfile {
    SoilProfile::new(
        vec![
            SoilLayer {
                thickness: Some(3000),
                dry_unit_weight: Some(1800),
                saturated_unit_weight: Some(1900),
                ..Default::default()
            },
            SoilLayer {
                thickness: Some(5000),
                dry_unit_weight: Some(1900),
                saturated_unit_weight: Some(2000),
                ..Default::default()
            },
            SoilLayer {
                thickness: Some(50_000),
                dry_unit_weight: Some(2000),
                saturated_unit_weight: Some(2100),
                ..Default::default()
            },
        ],
        5000,
    )
}

fn create_foundation_data() -> Foundation {
    Foundation {
        foundation_width: Some(10_000),
        foundation_length: Some(20_000),
        foundation_depth: Some(2000),
        ..Default::default()
    }
}

#[test]
fn test_effective_depth() {
    let soil_profile = create_soil_profile();
    let foundation_data = create_foundation_data();
    let foundation_pressure = 50_000_000;

    let effective_depth =
        calc_effective_depth(&soil_profile, &foundation_data, foundation_pressure).unwrap();
    let expected_depth = 34_410;
    assert!(
        (effective_depth - expected_depth).abs() <= 10,
        "expected about {}, got {}",
        expected_depth,
        effective_depth
    );
}

// The solver answers a depth no shallower than the foundation at which the
// stress increment has fallen to within tolerance of one tenth of the
// effective stress — or the zero fallback after a collapsed bracket.
#[test]
fn test_effective_depth_meets_tolerance() {
    let soil_profile = create_soil_profile();
    let foundation_data = create_foundation_data();
    let foundation_pressure: i64 = 50_000_000;

    let z = calc_effective_depth(&soil_profile, &foundation_data, foundation_pressure).unwrap();
    assert!(z == 0 || z >= 2000);
    if z != 0 {
        let df: i128 = 2000;
        let b: i128 = 10_000;
        let l: i128 = 20_000;
        let q_net = foundation_pressure as i128 - soil_profile.calc_normal_stress(2000) as i128;
        let f = q_net * b * l;
        let den = (b + z as i128 - df) * (l + z as i128 - df);
        let dg = f / den;
        let es = soil_profile.calc_effective_stress(z) as i128;
        let diff10 = 10 * dg - es;
        assert!(
            diff10.abs() <= 100_000,
            "difference at the answer: {}",
            diff10
        );
    }
}

#[test]
fn test_effective_depth_rejects_bad_input() {
    let soil_profile = create_soil_profile();
    let mut foundation_data = create_foundation_data();
    foundation_data.foundation_width = None;

    let err =
        calc_effective_depth(&soil_profile, &foundation_data, 50_000_000).unwrap_err();
    assert_eq!(err.code, "foundation.foundation_width.missing");
    assert_eq!(err.message, "foundation_width must be provided.");
}
