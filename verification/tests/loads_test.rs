//! Loading conditions: stress selection and eccentricities. Loads are
//! thousandths of a tonne, moments thousandths of a tonne-metre, stresses
//! millionths of a tonne per square metre.
use soilrust::enums::{LoadCase, SelectionMethod};
use soilrust::models::loads::{Loads, Stress};

#[test]
fn test_calc_eccentricity() {
    let loading = Loads {
        vertical_load: Some(10_000),
        moment_x: Some(20_000),
        moment_y: Some(15_000),
        ..Default::default()
    };

    let (ex, ey) = loading.calc_eccentricity();

    assert_eq!(ex, 2000);
    assert_eq!(ey, 1500);
}

#[test]
fn test_calc_eccentricity_zero_load() {
    let loading = Loads {
        moment_x: Some(20_000),
        moment_y: Some(15_000),
        ..Default::default()
    };

    let (ex, ey) = loading.calc_eccentricity();

    assert_eq!(ex, 0);
    assert_eq!(ey, 0);
}

#[test]
fn test_get_vertical_stress() {
    // Create a struct with known values
    let stress_data = Loads {
        service_load: Some(Stress {
            min: Some(10_000_000),
            avg: Some(15_000_000),
            max: Some(20_000_000),
        }),
        ultimate_load: Some(Stress {
            min: Some(25_000_000),
            avg: Some(30_000_000),
            max: Some(35_000_000),
        }),
        seismic_load: Some(Stress {
            min: Some(40_000_000),
            avg: Some(45_000_000),
            max: None,
        }),
        ..Default::default()
    };

    // Test Service Load
    assert_eq!(
        stress_data.get_vertical_stress(LoadCase::ServiceLoad, SelectionMethod::Min),
        10_000_000
    );
    assert_eq!(
        stress_data.get_vertical_stress(LoadCase::ServiceLoad, SelectionMethod::Avg),
        15_000_000
    );
    assert_eq!(
        stress_data.get_vertical_stress(LoadCase::ServiceLoad, SelectionMethod::Max),
        20_000_000
    );

    // Test Ultimate Load
    assert_eq!(
        stress_data.get_vertical_stress(LoadCase::UltimateLoad, SelectionMethod::Min),
        25_000_000
    );
    assert_eq!(
        stress_data.get_vertical_stress(LoadCase::UltimateLoad, SelectionMethod::Avg),
        30_000_000
    );
    assert_eq!(
        stress_data.get_vertical_stress(LoadCase::UltimateLoad, SelectionMethod::Max),
        35_000_000
    );

    // Test Seismic Load
    assert_eq!(
        stress_data.get_vertical_stress(LoadCase::SeismicLoad, SelectionMethod::Min),
        40_000_000
    );
    assert_eq!(
        stress_data.get_vertical_stress(LoadCase::SeismicLoad, SelectionMethod::Avg),
        45_000_000
    );
    // an absent value reads as zero
    assert_eq!(
        stress_data.get_vertical_stress(LoadCase::SeismicLoad, SelectionMethod::Max),
        0
    );
}

#[test]
fn test_loads_validate() {
    let loads = Loads {
        vertical_load: Some(10_000),
        ..Default::default()
    };
    assert!(loads.validate(&["vertical_load"]).is_ok());

    let err = loads.validate(&["service_load"]).unwrap_err();
    assert_eq!(err.code, "loads.service_load_not_set");
    assert_eq!(err.message, "Service load is not set.");

    let loads = Loads {
        service_load: Some(Stress {
            min: Some(1),
            avg: None,
            max: Some(3),
        }),
        ..Default::default()
    };
    let err = loads.validate(&["service_load"]).unwrap_err();
    assert_eq!(err.code, "loads.avg.missing");

    let err = loads.validate(&["no_such_field"]).unwrap_err();
    assert_eq!(err.code, "loads.invalid_field");
    assert_eq!(err.message, "Field 'no_such_field' is not valid for Loads.");
}
