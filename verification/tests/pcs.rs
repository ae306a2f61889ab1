use snark_lab::pcs::{validate_opening_point, validate_supported_variables, PcsShapeError};

#[test]
fn supported_variable_validation_accepts_within_bound() {
    assert_eq!(validate_supported_variables(8, 8), Ok(()));
    assert_eq!(validate_supported_variables(8, 0), Ok(()));
}

#[test]
fn supported_variable_validation_rejects_over_bound() {
    assert_eq!(
        validate_supported_variables(8, 9),
        Err(PcsShapeError::UnsupportedVariableCount { requested: 9, supported: 8 })
    );
}

#[test]
fn opening_point_validation_accepts_exact_length() {
    assert_eq!(validate_opening_point(3, 3), Ok(()));
}

#[test]
fn opening_point_validation_rejects_wrong_length() {
    assert_eq!(
        validate_opening_point(3, 2),
        Err(PcsShapeError::PointLengthMismatch { expected: 3, actual: 2 })
    );
}
