use gk_math::decl::{GenericArg, ScalarType, TypeDecl};
use gk_math::gen::{GenError, OpKind, vector_math_impl};
use gk_math::matlink::mat_vec_mul_impl;

fn record(name: &str, fields: &[(&str, &str)]) -> TypeDecl {
    TypeDecl::Record {
        name: name.to_string(),
        fields: fields.iter().map(|(f, t)| (f.to_string(), t.to_string())).collect(),
    }
}

#[test]
fn generates_full_bundle_for_vec3() {
    let decl = record("Vec3", &[("x", "f32"), ("y", "f32"), ("z", "f32")]);
    let unit = vector_math_impl(&decl).unwrap();
    assert_eq!(unit.record.name, "Vec3");
    assert_eq!(unit.record.fields.len(), 3);
    assert_eq!(unit.record.fields[0].0, "x");
    assert!(matches!(unit.record.fields[0].1, ScalarType::F32));
    assert!(unit.operations.contains(&OpKind::CrossProduct));
    assert!(unit.operations.contains(&OpKind::Dot));
    assert!(unit.operations.contains(&OpKind::Constructor));
}

#[test]
fn cross_product_only_at_field_count_three() {
    let two = record("Vec2", &[("x", "i64"), ("y", "i64")]);
    let three = record("Vec3", &[("x", "i64"), ("y", "i64"), ("z", "i64")]);
    let four = record("Vec4", &[("x", "i64"), ("y", "i64"), ("z", "i64"), ("w", "i64")]);
    let u2 = vector_math_impl(&two).unwrap();
    let u3 = vector_math_impl(&three).unwrap();
    let u4 = vector_math_impl(&four).unwrap();
    assert!(!u2.operations.contains(&OpKind::CrossProduct));
    assert!(u3.operations.contains(&OpKind::CrossProduct));
    assert!(!u4.operations.contains(&OpKind::CrossProduct));
}

#[test]
fn rejects_heterogeneous_fields() {
    let decl = record("Mixed", &[("x", "i32"), ("y", "f64")]);
    match vector_math_impl(&decl) {
        Err(GenError::HeterogeneousFields { field, expected }) => {
            assert_eq!(field, "y");
            assert_eq!(expected, "i32");
        }
        _ => panic!("expected a heterogeneous-fields failure"),
    }
}

#[test]
fn rejects_non_primitive_field() {
    let decl = record("Named", &[("x", "f32"), ("label", "String")]);
    match vector_math_impl(&decl) {
        Err(GenError::NonPrimitiveField { field, field_type }) => {
            assert_eq!(field, "label");
            assert_eq!(field_type, "String");
        }
        _ => panic!("expected a non-primitive-field failure"),
    }
}

#[test]
fn non_primitive_reported_before_heterogeneity() {
    let decl = record("Mixed", &[("x", "i32"), ("y", "f64"), ("z", "String")]);
    match vector_math_impl(&decl) {
        Err(GenError::NonPrimitiveField { field, .. }) => assert_eq!(field, "z"),
        _ => panic!("expected a non-primitive-field failure"),
    }
}

#[test]
fn rejects_empty_record() {
    let decl = record("Nothing", &[]);
    match vector_math_impl(&decl) {
        Err(GenError::EmptyRecord { name }) => assert_eq!(name, "Nothing"),
        _ => panic!("expected an empty-record failure"),
    }
}

#[test]
fn rejects_tuple_and_enum_shapes() {
    let tuple = TypeDecl::TupleRecord {
        name: "Pair".to_string(),
        field_types: vec!["f32".to_string(), "f32".to_string()],
    };
    let en = TypeDecl::Enumeration { name: "Axis".to_string() };
    assert!(matches!(
        vector_math_impl(&tuple),
        Err(GenError::UnsupportedShape { .. })
    ));
    assert!(matches!(
        vector_math_impl(&en),
        Err(GenError::UnsupportedShape { .. })
    ));
}

#[test]
fn generation_is_deterministic() {
    let a = record("Vec3", &[("x", "u32"), ("y", "u32"), ("z", "u32")]);
    let b = record("Vec3", &[("x", "u32"), ("y", "u32"), ("z", "u32")]);
    let u1 = vector_math_impl(&a).unwrap();
    let u2 = vector_math_impl(&b).unwrap();
    assert_eq!(u1.record.name, u2.record.name);
    assert_eq!(u1.record.fields.len(), u2.record.fields.len());
    for i in 0..u1.record.fields.len() {
        assert_eq!(u1.record.fields[i].0, u2.record.fields[i].0);
        assert_eq!(u1.record.fields[i].1, u2.record.fields[i].1);
    }
    assert_eq!(u1.operations, u2.operations);
}

#[test]
fn links_matrix_alias() {
    let alias = TypeDecl::Alias {
        name: "Mat3".to_string(),
        container: "Mat".to_string(),
        args: vec![
            GenericArg::TypeName("f32".to_string()),
            GenericArg::ConstVal(3),
            GenericArg::ConstVal(3),
        ],
    };
    let unit = mat_vec_mul_impl("Vec3", &alias).unwrap();
    assert_eq!(unit.request.matrix_name, "Mat3");
    assert_eq!(unit.request.vector_type, "Vec3");
    assert!(matches!(unit.request.element_type, ScalarType::F32));
    assert_eq!(unit.request.rows, 3);
    assert_eq!(unit.request.cols, 3);
    assert_eq!(unit.operator.lhs, "Mat3");
    assert_eq!(unit.operator.rhs, "Vec3");
    assert_eq!(unit.operator.output, "Vec3");
    assert_eq!(unit.operator.row_count, 3);
}

#[test]
fn rejects_malformed_matrix_shape() {
    let wrong_container = TypeDecl::Alias {
        name: "Grid".to_string(),
        container: "Grid2d".to_string(),
        args: vec![
            GenericArg::TypeName("f32".to_string()),
            GenericArg::ConstVal(2),
            GenericArg::ConstVal(2),
        ],
    };
    let two_args = TypeDecl::Alias {
        name: "Mat2".to_string(),
        container: "Mat".to_string(),
        args: vec![GenericArg::TypeName("f32".to_string()), GenericArg::ConstVal(2)],
    };
    assert!(matches!(
        mat_vec_mul_impl("Vec2", &wrong_container),
        Err(GenError::MalformedMatrixShape { .. })
    ));
    match mat_vec_mul_impl("Vec2", &two_args) {
        Err(GenError::MalformedMatrixShape { alias_name }) => assert_eq!(alias_name, "Mat2"),
        _ => panic!("expected a malformed-matrix-shape failure"),
    }
}
