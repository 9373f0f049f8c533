//! Foundation geometry: effective dimensions after eccentricity. Lengths are
//! thousandths of a metre.
use soilrust::models::foundation::Foundation;

#[test]
fn test_calc_effective_lengths() {
    let mut foundation = Foundation {
        foundation_length: Some(10_000),
        foundation_width: Some(5000),
        ..Default::default()
    };

    let ex = 1000; // Eccentricity in x-direction
    let ey = 1500; // Eccentricity in y-direction

    foundation.calc_effective_lengths(ex, ey);

    // Expected values:
    // b' = 5 - 2 * 1.0 = 3.0
    // l' = 10 - 2 * 1.5 = 7.0
    // effective_width = min(3.0, 7.0) = 3.0
    // effective_length = max(3.0, 7.0) = 7.0
    assert_eq!(foundation.effective_width, Some(3000));
    assert_eq!(foundation.effective_length, Some(7000));
}

#[test]
fn test_calc_effective_lengths_zero_eccentricity() {
    let mut foundation = Foundation {
        foundation_length: Some(8000),
        foundation_width: Some(4000),
        ..Default::default()
    };

    foundation.calc_effective_lengths(0, 0);

    // No eccentricity, so effective dimensions should remain the same
    assert_eq!(foundation.effective_width, Some(4000));
    assert_eq!(foundation.effective_length, Some(8000));
}

#[test]
fn test_calc_effective_lengths_negative_effective_size() {
    let mut foundation = Foundation {
        foundation_length: Some(6000),
        foundation_width: Some(3000),
        ..Default::default()
    };

    let ex = 2000; // Large eccentricity causing negative width
    let ey = 2000; // Large eccentricity causing negative length

    foundation.calc_effective_lengths(ex, ey);

    // Negative values should be prevented (width or length cannot be negative)
    assert_eq!(foundation.effective_width, Some(0));
    assert_eq!(foundation.effective_length, Some(2000)); // The remaining length
}

#[test]
fn test_foundation_validate() {
    let foundation = Foundation {
        foundation_depth: Some(2000),
        foundation_width: Some(5000),
        foundation_length: Some(10_000),
        ..Default::default()
    };
    assert!(foundation
        .validate(&["foundation_depth", "foundation_width", "foundation_length"])
        .is_ok());

    // the width may not exceed the length
    let bad = Foundation {
        foundation_depth: Some(2000),
        foundation_width: Some(12_000),
        foundation_length: Some(10_000),
        ..Default::default()
    };
    let err = bad.validate(&["foundation_width"]).unwrap_err();
    assert_eq!(err.code, "foundation.foundation_width.too_large.10000");

    let missing = Foundation::default();
    let err = missing.validate(&["foundation_depth"]).unwrap_err();
    assert_eq!(err.code, "foundation.foundation_depth.missing");
    assert_eq!(err.message, "foundation_depth must be provided.");
}

#[test]
fn test_foundation_new() {
    let foundation = Foundation::new(
        Some(2000),
        Some(10_000),
        Some(5000),
        Some(0),
        Some(0),
        Some(50_000_000),
        Some(600),
    );
    assert_eq!(foundation.foundation_depth, Some(2000));
    assert_eq!(foundation.foundation_length, Some(10_000));
    assert_eq!(foundation.foundation_width, Some(5000));
    assert_eq!(foundation.effective_width, None);
    assert_eq!(foundation.effective_length, None);
    assert_eq!(foundation.surface_friction_coefficient, Some(600));
}
