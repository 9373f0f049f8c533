//! Soil coefficient estimates; values keep their inputs' scale of thousandths.
use soilrust::soil_coefficient::{calc_by_bearing_capacity, calc_by_settlement};

#[test]
fn test_calc_soil_coefficient_by_settlement_positive() {
    let settlement = 2000; // 2 m
    let foundation_load = 1_000_000; // 1000 t
    let result = calc_by_settlement(settlement, foundation_load);
    assert_eq!(result, 50_000_000); // 50,000 t/m³
}

#[test]
fn test_calc_soil_coefficient_by_settlement_zero() {
    let settlement = 0;
    let foundation_load = 1_000_000;
    let result = calc_by_settlement(settlement, foundation_load);
    assert_eq!(result, 999_999_000);
}

#[test]
fn test_calc_soil_coefficient_by_bearing_capacity() {
    let bearing_capacity = 250_000; // 250 t/m²
    let result = calc_by_bearing_capacity(bearing_capacity);
    assert_eq!(result, 100_000_000); // 100,000 t/m³
}
