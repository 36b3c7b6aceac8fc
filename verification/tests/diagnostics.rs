use gk_math::diag::report;
use gk_math::gen::GenError;

#[test]
fn unsupported_shape_is_anchored_at_the_type_name() {
    let d = report(&GenError::UnsupportedShape { name: "Axis".to_string() });
    assert_eq!(d.anchor, "Axis");
    assert_eq!(d.message, "a vector API needs a record with named fields");
}

#[test]
fn empty_record_names_the_structure() {
    let d = report(&GenError::EmptyRecord { name: "Nothing".to_string() });
    assert_eq!(d.anchor, "Nothing");
    assert_eq!(d.message, "no field in structure: Nothing");
}

#[test]
fn non_primitive_field_is_anchored_at_the_field() {
    let d = report(&GenError::NonPrimitiveField {
        field: "label".to_string(),
        field_type: "String".to_string(),
    });
    assert_eq!(d.anchor, "label");
    assert_eq!(d.message, "field must be a primitive numeric type: String");
}

#[test]
fn heterogeneous_fields_name_the_expected_type() {
    let d = report(&GenError::HeterogeneousFields {
        field: "y".to_string(),
        expected: "i32".to_string(),
    });
    assert_eq!(d.anchor, "y");
    assert_eq!(d.message, "field type must equal the first field type: i32");
}

#[test]
fn malformed_matrix_shape_is_anchored_at_the_alias() {
    let d = report(&GenError::MalformedMatrixShape { alias_name: "Mat3".to_string() });
    assert_eq!(d.anchor, "Mat3");
    assert_eq!(
        d.message,
        "expected a matrix container with an element type and two dimensions"
    );
}
