//! The matrix-link generator: extracts the element type and the shape
//! from a matrix type alias and emits the one multiplication operator
//! that maps the matrix's rows onto an already-declared vector type.

use vstd::prelude::*;
use crate::decl::{GenericArg, ScalarType, TypeDecl, spec_scalar_of, scalar_of, text_eq};
use crate::gen::GenError;

verus! {

/// A validated matrix-link request: the vector type to link against,
/// the alias name, and the element type and shape read off the alias's
/// generic instantiation.
pub struct MatrixLinkRequest {
    pub vector_type: String,
    pub matrix_name: String,
    pub element_type: ScalarType,
    pub rows: usize,
    pub cols: usize,
}

/// The emitted multiplication operator: matrix on the left, vector on
/// the right, vector as the result, one dot product per row.
pub struct MulOperator {
    pub lhs: String,
    pub rhs: String,
    pub output: String,
    pub row_count: usize,
}

/// The emitted bundle of one matrix-link generation call.
pub struct MatrixLinkUnit {
    pub request: MatrixLinkRequest,
    pub operator: MulOperator,
}

/// Whether a declaration is an alias of the recognized matrix container
/// with exactly an element type and two constant dimensions.
pub open spec fn alias_shape_ok(decl: TypeDecl) -> bool {
    match decl {
        TypeDecl::Alias { name, container, args } => {
            &&& container@ == seq!['M', 'a', 't']
            &&& args@.len() == 3
            &&& args@[0] matches GenericArg::TypeName(t) && spec_scalar_of(t@) is Some
            &&& args@[1] is ConstVal
            &&& args@[2] is ConstVal
        },
        _ => false,
    }
}

/// The exact relation between a well-shaped alias and the extracted
/// element type and dimensions.
pub open spec fn extraction_ok(decl: TypeDecl, elem: ScalarType, rows: usize, cols: usize) -> bool {
    match decl {
        TypeDecl::Alias { name, container, args } => {
            &&& Some(elem) == spec_scalar_of(args@[0]->TypeName_0@)
            &&& args@[1] == GenericArg::ConstVal(rows)
            &&& args@[2] == GenericArg::ConstVal(cols)
        },
        _ => false,
    }
}

/// Reads the element type, row count and column count off a matrix
/// alias's generic arguments; `None` when the container is not the
/// recognized one or the arguments do not fit that shape.
pub fn extract_mat_generics(decl: &TypeDecl) -> (r: Option<(ScalarType, usize, usize)>)
    ensures
        r is Some <==> alias_shape_ok(*decl),
        match r {
            Some((elem, rows, cols)) => extraction_ok(*decl, elem, rows, cols),
            None => true,
        },
{
    proof {
        reveal_strlit("Mat");
        assert("Mat"@ =~= seq!['M', 'a', 't']);
    }
    match decl {
        TypeDecl::Alias { name, container, args } => {
            if !text_eq(container.as_str(), "Mat") {
                return None;
            }
            if args.len() != 3 {
                return None;
            }
            let elem = match &args[0] {
                GenericArg::TypeName(t) => {
                    match scalar_of(t.as_str()) {
                        Some(e) => e,
                        None => {
                            return None;
                        },
                    }
                },
                GenericArg::ConstVal(_) => {
                    return None;
                },
            };
            let rows = match &args[1] {
                GenericArg::ConstVal(v) => *v,
                GenericArg::TypeName(_) => {
                    return None;
                },
            };
            let cols = match &args[2] {
                GenericArg::ConstVal(v) => *v,
                GenericArg::TypeName(_) => {
                    return None;
                },
            };
            Some((elem, rows, cols))
        },
        _ => None,
    }
}

/// The declared name a diagnostic for a declaration is anchored at.
pub open spec fn decl_name(decl: TypeDecl) -> String {
    match decl {
        TypeDecl::Record { name, .. } => name,
        TypeDecl::TupleRecord { name, .. } => name,
        TypeDecl::Enumeration { name } => name,
        TypeDecl::Alias { name, .. } => name,
    }
}

/// The exact relation between a matrix-link generation call and the
/// bundle it emits.
pub open spec fn link_ok(decl: TypeDecl, vector_type: Seq<char>, u: MatrixLinkUnit) -> bool {
    match decl {
        TypeDecl::Alias { name, container, args } => {
            &&& u.request.vector_type@ == vector_type
            &&& u.request.matrix_name == name
            &&& extraction_ok(decl, u.request.element_type, u.request.rows, u.request.cols)
            &&& u.operator.lhs == name
            &&& u.operator.rhs@ == vector_type
            &&& u.operator.output@ == vector_type
            &&& u.operator.row_count == u.request.rows
        },
        _ => false,
    }
}

/// One generation call of the matrix-link generator.
///
/// The emitted operator takes the alias as its left operand and the
/// named vector type as its right operand and result; its body is one
/// dot product per row, the row reinterpreted as the vector type, the
/// results fed in row order to the vector type's constructor.  That the
/// column count equals the vector type's field count is deliberately
/// left to the surrounding toolchain's type check of the emitted text.
pub fn mat_vec_mul_impl(vector_type: &str, decl: &TypeDecl) -> (r: Result<
    MatrixLinkUnit,
    GenError,
>)
    ensures
        r is Ok <==> alias_shape_ok(*decl),
        match r {
            Ok(u) => link_ok(*decl, vector_type@, u),
            Err(e) => e == (GenError::MalformedMatrixShape { alias_name: decl_name(*decl) }),
        },
{
    let extracted = extract_mat_generics(decl);
    match decl {
        TypeDecl::Alias { name, container, args } => {
            match extracted {
                Some((elem, rows, cols)) => Ok(
                    MatrixLinkUnit {
                        request: MatrixLinkRequest {
                            vector_type: vector_type.to_owned(),
                            matrix_name: name.clone(),
                            element_type: elem,
                            rows,
                            cols,
                        },
                        operator: MulOperator {
                            lhs: name.clone(),
                            rhs: vector_type.to_owned(),
                            output: vector_type.to_owned(),
                            row_count: rows,
                        },
                    },
                ),
                None => Err(GenError::MalformedMatrixShape { alias_name: name.clone() }),
            }
        },
        TypeDecl::Record { name, .. } => Err(GenError::MalformedMatrixShape {
            alias_name: name.clone(),
        }),
        TypeDecl::TupleRecord { name, .. } => Err(GenError::MalformedMatrixShape {
            alias_name: name.clone(),
        }),
        TypeDecl::Enumeration { name } => Err(GenError::MalformedMatrixShape {
            alias_name: name.clone(),
        }),
    }
}

} // verus!
