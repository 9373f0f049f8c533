//! The uniform bounds-check primitives and their structured errors.
use soilrust::helper;
use soilrust::validation::{validate_field, ValidationError};

#[test]
fn test_validate_field_ok() {
    assert!(validate_field("cu", Some(500), Some(0), None, "layer").is_ok());
    assert!(validate_field("cu", Some(0), Some(0), Some(0), "layer").is_ok());
    assert!(validate_field("cu", Some(-3), None, None, "layer").is_ok());
}

#[test]
fn test_validate_field_missing() {
    let err = validate_field("cu", None, Some(0), None, "layer").unwrap_err();
    assert_eq!(err.code, "layer.cu.missing");
    assert_eq!(err.message, "cu must be provided.");
}

#[test]
fn test_validate_field_too_small() {
    let err = validate_field("cu", Some(-5), Some(0), None, "layer").unwrap_err();
    assert_eq!(err.code, "layer.cu.too_small.0");
    assert_eq!(err.message, "cu must be greater than or equal to 0.");
}

#[test]
fn test_validate_field_too_large() {
    let err = validate_field("phi", Some(95_000), Some(0), Some(90_000), "layer").unwrap_err();
    assert_eq!(err.code, "layer.phi.too_large.90000");
    assert_eq!(err.message, "phi must be less than or equal to 90000.");
}

#[test]
fn test_validate_field_negative_bound_in_code() {
    let err = validate_field("delta", Some(-10), Some(-5), None, "layer").unwrap_err();
    assert_eq!(err.code, "layer.delta.too_small.-5");
}

#[test]
fn test_validation_error_text() {
    let err = ValidationError {
        code: "layer.cu.missing".to_string(),
        message: "cu must be provided.".to_string(),
    };
    assert_eq!(err.to_text(), "[layer.cu.missing] cu must be provided.");
}

#[test]
fn test_helper_validate_field() {
    assert!(helper::validate_field("q", Some(5), Some(0), Some(10)).is_ok());
    assert_eq!(
        helper::validate_field("q", None, None, None).unwrap_err(),
        "q must be provided."
    );
    assert_eq!(
        helper::validate_field("q", Some(-1), Some(0), None).unwrap_err(),
        "q must be ≥ 0."
    );
    assert_eq!(
        helper::validate_field("q", Some(11), Some(0), Some(10)).unwrap_err(),
        "q must be ≤ 10."
    );
}
