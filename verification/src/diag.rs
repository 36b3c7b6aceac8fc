//! The diagnostic reporter shared by both generators: each validation
//! failure becomes error text anchored at the offending identifier.

use vstd::prelude::*;
use vstd::string::StringExecFns;
use crate::gen::GenError;

verus! {

/// One diagnostic: the identifier the error text is anchored at, and
/// the human-readable message.
pub struct Diagnostic {
    pub anchor: String,
    pub message: String,
}

/// Formats a generation failure as anchored error text.
pub fn report(e: &GenError) -> (d: Diagnostic)
    ensures
        match *e {
            GenError::UnsupportedShape { name } => {
                &&& d.anchor@ == name@
                &&& d.message@ == "a vector API needs a record with named fields"@
            },
            GenError::EmptyRecord { name } => {
                &&& d.anchor@ == name@
                &&& d.message@ == "no field in structure: "@ + name@
            },
            GenError::NonPrimitiveField { field, field_type } => {
                &&& d.anchor@ == field@
                &&& d.message@ == "field must be a primitive numeric type: "@ + field_type@
            },
            GenError::HeterogeneousFields { field, expected } => {
                &&& d.anchor@ == field@
                &&& d.message@ == "field type must equal the first field type: "@ + expected@
            },
            GenError::MalformedMatrixShape { alias_name } => {
                &&& d.anchor@ == alias_name@
                &&& d.message@ == "expected a matrix container with an element type and two dimensions"@
            },
        },
{
    match e {
        GenError::UnsupportedShape { name } => Diagnostic {
            anchor: name.clone(),
            message: String::from_str("a vector API needs a record with named fields"),
        },
        GenError::EmptyRecord { name } => Diagnostic {
            anchor: name.clone(),
            message: String::from_str("no field in structure: ").concat(name.as_str()),
        },
        GenError::NonPrimitiveField { field, field_type } => Diagnostic {
            anchor: field.clone(),
            message: String::from_str("field must be a primitive numeric type: ").concat(
                field_type.as_str(),
            ),
        },
        GenError::HeterogeneousFields { field, expected } => Diagnostic {
            anchor: field.clone(),
            message: String::from_str("field type must equal the first field type: ").concat(
                expected.as_str(),
            ),
        },
        GenError::MalformedMatrixShape { alias_name } => Diagnostic {
            anchor: alias_name.clone(),
            message: String::from_str(
                "expected a matrix container with an element type and two dimensions",
            ),
        },
    }
}

} // verus!
