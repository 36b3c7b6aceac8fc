//! The vector-API generator: validation of a record declaration and the
//! deterministic emission of the operation bundle bound to it.

use vstd::prelude::*;
use crate::decl::{ScalarType, TypeDecl, spec_scalar_of, scalar_of, text_eq};

verus! {

/// A generation-time failure; each variant carries the identifiers the
/// diagnostic is anchored at.
#[derive(Debug)]
pub enum GenError {
    /// The declaration is not a record with named fields.
    UnsupportedShape { name: String },
    /// The record has zero fields.
    EmptyRecord { name: String },
    /// A field's type lies outside the fixed primitive numeric set.
    NonPrimitiveField { field: String, field_type: String },
    /// A field's type differs from the first field's type.
    HeterogeneousFields { field: String, expected: String },
    /// A matrix alias does not name a recognized container with an
    /// element type and two dimensions.
    MalformedMatrixShape { alias_name: String },
}

/// A validated record: its name and its ordered fields, each a name
/// paired with the one shared primitive numeric kind.
pub struct RecordDescription {
    pub name: String,
    pub fields: Vec<(String, ScalarType)>,
}

impl RecordDescription {
    /// The invariant of a validated record: at least one field, and all
    /// field kinds identical.
    pub open spec fn wf(self) -> bool {
        &&& self.fields@.len() >= 1
        &&& forall|i: int|
            0 <= i < self.fields@.len() ==> #[trigger] self.fields@[i].1 == self.fields@[0].1
    }

    /// How many fields the record has.
    pub open spec fn spec_field_count(self) -> int {
        self.fields@.len() as int
    }

    /// The one numeric kind shared by every field.
    pub open spec fn spec_element_type(self) -> ScalarType {
        self.fields@[0].1
    }

    pub fn field_count(&self) -> (r: usize)
        ensures
            r == self.spec_field_count(),
    {
        self.fields.len()
    }

    pub fn element_type(&self) -> (r: ScalarType)
        requires
            self.wf(),
        ensures
            r == self.spec_element_type(),
    {
        self.fields[0].1
    }
}

/// Whether field `i` of a record declaration names a primitive kind.
pub open spec fn field_primitive(fields: Seq<(String, String)>, i: int) -> bool {
    spec_scalar_of(fields[i].1@) is Some
}

/// Whether every field of a record declaration names a primitive kind.
pub open spec fn all_primitive(fields: Seq<(String, String)>) -> bool {
    forall|i: int| 0 <= i < fields.len() ==> field_primitive(fields, i)
}

/// Whether every field's declared type equals the first field's.
pub open spec fn homogeneous(fields: Seq<(String, String)>) -> bool {
    forall|i: int| 0 <= i < fields.len() ==> (#[trigger] fields[i].1)@ == fields[0].1@
}

/// Whether a declaration passes the whole validation sequence.
pub open spec fn decl_valid(decl: TypeDecl) -> bool {
    match decl {
        TypeDecl::Record { name, fields } => {
            &&& fields@.len() >= 1
            &&& all_primitive(fields@)
            &&& homogeneous(fields@)
        },
        _ => false,
    }
}

/// The exact relation between a declaration and the failure that
/// inspecting it reports, first failing rule first.
pub open spec fn inspect_err(decl: TypeDecl, e: GenError) -> bool {
    match decl {
        TypeDecl::Record { name, fields } => {
            if fields@.len() == 0 {
                e == (GenError::EmptyRecord { name: name })
            } else if !all_primitive(fields@) {
                exists|k: int|
                    {
                        &&& 0 <= k < fields@.len()
                        &&& !(#[trigger] field_primitive(fields@, k))
                        &&& (forall|j: int| 0 <= j < k ==> field_primitive(fields@, j))
                        &&& e == (GenError::NonPrimitiveField {
                            field: fields@[k].0,
                            field_type: fields@[k].1,
                        })
                    }
            } else if !homogeneous(fields@) {
                exists|k: int|
                    {
                        &&& 0 <= k < fields@.len()
                        &&& (#[trigger] fields@[k].1)@ != fields@[0].1@
                        &&& (forall|j: int| 0 <= j < k ==> (#[trigger] fields@[j].1)@ == fields@[0].1@)
                        &&& e == (GenError::HeterogeneousFields {
                            field: fields@[k].0,
                            expected: fields@[0].1,
                        })
                    }
            } else {
                false
            }
        },
        TypeDecl::TupleRecord { name, field_types } => e == (GenError::UnsupportedShape {
            name: name,
        }),
        TypeDecl::Enumeration { name } => e == (GenError::UnsupportedShape { name: name }),
        TypeDecl::Alias { name, container, args } => e == (GenError::UnsupportedShape {
            name: name,
        }),
    }
}

/// The exact relation between a valid declaration and the record
/// description extracted from it.
pub open spec fn inspect_ok(decl: TypeDecl, d: RecordDescription) -> bool {
    match decl {
        TypeDecl::Record { name, fields } => {
            &&& d.name == name
            &&& d.fields@.len() == fields@.len()
            &&& forall|i: int|
                0 <= i < fields@.len() ==> (#[trigger] d.fields@[i]).0 == fields@[i].0
                    && Some(d.fields@[i].1) == spec_scalar_of(fields@[i].1@)
        },
        _ => false,
    }
}

/// Validates a record declaration and extracts its description.
///
/// The validation sequence fails fast: shape, then field count, then
/// membership of every field type in the primitive set, then
/// homogeneity against the first field.
#[verifier::loop_isolation(false)]
pub fn inspect_record(decl: &TypeDecl) -> (r: Result<RecordDescription, GenError>)
    ensures
        r is Ok <==> decl_valid(*decl),
        match r {
            Ok(d) => inspect_ok(*decl, d) && d.wf(),
            Err(e) => inspect_err(*decl, e),
        },
{
    match decl {
        TypeDecl::Record { name, fields } => {
            if fields.len() == 0 {
                return Err(GenError::EmptyRecord { name: name.clone() });
            }
            let mut out: Vec<(String, ScalarType)> = Vec::new();
            let mut i: usize = 0;
            while i < fields.len()
                invariant
                    0 <= i <= fields@.len(),
                    out@.len() == i,
                    forall|j: int| 0 <= j < i ==> field_primitive(fields@, j),
                    forall|j: int|
                        0 <= j < i ==> (#[trigger] out@[j]).0 == fields@[j].0 && Some(out@[j].1)
                            == spec_scalar_of(fields@[j].1@),
                decreases fields@.len() - i,
            {
                let entry = &fields[i];
                match scalar_of(entry.1.as_str()) {
                    Some(t) => {
                        out.push((entry.0.clone(), t));
                    },
                    None => {
                        proof {
                            assert(!field_primitive(fields@, i as int));
                            assert(!all_primitive(fields@));
                            assert(!decl_valid(*decl));
                        }
                        return Err(GenError::NonPrimitiveField {
                            field: entry.0.clone(),
                            field_type: entry.1.clone(),
                        });
                    },
                }
                i = i + 1;
            }
            let mut k: usize = 1;
            while k < fields.len()
                invariant
                    1 <= k <= fields@.len(),
                    fields@.len() >= 1,
                    forall|j: int| 0 <= j < k ==> (#[trigger] fields@[j].1)@ == fields@[0].1@,
                decreases fields@.len() - k,
            {
                if !text_eq(fields[k].1.as_str(), fields[0].1.as_str()) {
                    proof {
                        assert((fields@[k as int].1)@ != fields@[0].1@);
                        assert(!homogeneous(fields@));
                        assert(!decl_valid(*decl));
                    }
                    return Err(GenError::HeterogeneousFields {
                        field: fields[k].0.clone(),
                        expected: fields[0].1.clone(),
                    });
                }
                k = k + 1;
            }
            proof {
                assert(homogeneous(fields@));
                assert forall|i: int| 0 <= i < out@.len() implies (#[trigger] out@[i]).1
                    == out@[0].1 by {
                    assert((#[trigger] fields@[i].1)@ == fields@[0].1@);
                    assert(Some(out@[i].1) == spec_scalar_of(fields@[i].1@));
                    assert(Some(out@[0].1) == spec_scalar_of(fields@[0].1@));
                }
            }
            Ok(RecordDescription { name: name.clone(), fields: out })
        },
        TypeDecl::TupleRecord { name, .. } => Err(GenError::UnsupportedShape {
            name: name.clone(),
        }),
        TypeDecl::Enumeration { name } => Err(GenError::UnsupportedShape {
            name: name.clone(),
        }),
        TypeDecl::Alias { name, .. } => Err(GenError::UnsupportedShape {
            name: name.clone(),
        }),
    }
}

/// One named operation of the emitted bundle.
#[derive(Clone, Copy, PartialEq, Eq, Structural, Debug)]
pub enum OpKind {
    /// Positional constructor, one argument per field in declaration order.
    Constructor,
    /// Conversion from a fixed-size array of the element type.
    FromArray,
    Add,
    AddAssign,
    Sub,
    SubAssign,
    Neg,
    MulElementwise,
    DivElementwise,
    MulScalar,
    MulAssignScalar,
    /// Scalar-on-the-left multiplication, equal to instance-times-scalar.
    ScalarMulLeft,
    DivScalar,
    DivAssignScalar,
    Dot,
    Sum,
    LengthSquared,
    Length,
    Normalized,
    IsZero,
    MinElement,
    MaxElement,
    MapFields,
    /// Structural, field-by-field equality.
    Equality,
    /// The partial-order comparison and the independent field-by-field
    /// strict comparison predicates.
    PartialOrder,
    IndexRead,
    IndexWrite,
    DebugFormat,
    DisplayFormat,
    /// Emitted only when the field count is exactly three.
    CrossProduct,
}

/// The emitted bundle: the validated record it is bound to, and the
/// operations generated for it, in emission order.
pub struct GeneratedUnit {
    pub record: RecordDescription,
    pub operations: Vec<OpKind>,
}

/// The operations emitted for every valid record, in order.
pub open spec fn spec_base_operations() -> Seq<OpKind> {
    seq![
        OpKind::Constructor,
        OpKind::FromArray,
        OpKind::Add,
        OpKind::AddAssign,
        OpKind::Sub,
        OpKind::SubAssign,
        OpKind::Neg,
        OpKind::MulElementwise,
        OpKind::DivElementwise,
        OpKind::MulScalar,
        OpKind::MulAssignScalar,
        OpKind::ScalarMulLeft,
        OpKind::DivScalar,
        OpKind::DivAssignScalar,
        OpKind::Dot,
        OpKind::Sum,
        OpKind::LengthSquared,
        OpKind::Length,
        OpKind::Normalized,
        OpKind::IsZero,
        OpKind::MinElement,
        OpKind::MaxElement,
        OpKind::MapFields,
        OpKind::Equality,
        OpKind::PartialOrder,
        OpKind::IndexRead,
        OpKind::IndexWrite,
        OpKind::DebugFormat,
        OpKind::DisplayFormat,
    ]
}

/// The operations emitted for a valid record of `field_count` fields:
/// the base set, plus the cross product exactly at field count three.
pub open spec fn spec_operations(field_count: int) -> Seq<OpKind> {
    if field_count == 3 {
        spec_base_operations().push(OpKind::CrossProduct)
    } else {
        spec_base_operations()
    }
}

/// Emits the operation bundle for a validated record.
pub fn emit_operations(field_count: usize) -> (r: Vec<OpKind>)
    ensures
        r@ == spec_operations(field_count as int),
{
    let mut ops: Vec<OpKind> = Vec::new();
    ops.push(OpKind::Constructor);
    ops.push(OpKind::FromArray);
    ops.push(OpKind::Add);
    ops.push(OpKind::AddAssign);
    ops.push(OpKind::Sub);
    ops.push(OpKind::SubAssign);
    ops.push(OpKind::Neg);
    ops.push(OpKind::MulElementwise);
    ops.push(OpKind::DivElementwise);
    ops.push(OpKind::MulScalar);
    ops.push(OpKind::MulAssignScalar);
    ops.push(OpKind::ScalarMulLeft);
    ops.push(OpKind::DivScalar);
    ops.push(OpKind::DivAssignScalar);
    ops.push(OpKind::Dot);
    ops.push(OpKind::Sum);
    ops.push(OpKind::LengthSquared);
    ops.push(OpKind::Length);
    ops.push(OpKind::Normalized);
    ops.push(OpKind::IsZero);
    ops.push(OpKind::MinElement);
    ops.push(OpKind::MaxElement);
    ops.push(OpKind::MapFields);
    ops.push(OpKind::Equality);
    ops.push(OpKind::PartialOrder);
    ops.push(OpKind::IndexRead);
    ops.push(OpKind::IndexWrite);
    ops.push(OpKind::DebugFormat);
    ops.push(OpKind::DisplayFormat);
    proof {
        assert(ops@ =~= spec_base_operations());
    }
    if field_count == 3 {
        ops.push(OpKind::CrossProduct);
    }
    ops
}

/// One generation call of the vector-API generator: validates the
/// declaration and, when it is valid, emits the operation bundle.
pub fn vector_math_impl(decl: &TypeDecl) -> (r: Result<GeneratedUnit, GenError>)
    ensures
        r is Ok <==> decl_valid(*decl),
        match r {
            Ok(u) => {
                &&& inspect_ok(*decl, u.record)
                &&& u.record.wf()
                &&& u.operations@ == spec_operations(u.record.spec_field_count())
            },
            Err(e) => inspect_err(*decl, e),
        },
{
    let record = match inspect_record(decl) {
        Ok(d) => d,
        Err(e) => {
            return Err(e);
        },
    };
    let ops = emit_operations(record.field_count());
    Ok(GeneratedUnit { record, operations: ops })
}

/// The observable content of a record description: the record name and,
/// per field, its name and numeric kind.
pub open spec fn record_repr(d: RecordDescription) -> (Seq<char>, Seq<(Seq<char>, ScalarType)>) {
    (d.name@, d.fields@.map_values(|f: (String, ScalarType)| (f.0@, f.1)))
}

/// Generation is a pure function of the declaration: two generation
/// calls on equal declarations yield bundles with identical content.
pub proof fn lemma_generation_deterministic(
    decl: TypeDecl,
    u1: GeneratedUnit,
    u2: GeneratedUnit,
)
    requires
        inspect_ok(decl, u1.record),
        inspect_ok(decl, u2.record),
        u1.operations@ == spec_operations(u1.record.spec_field_count()),
        u2.operations@ == spec_operations(u2.record.spec_field_count()),
    ensures
        record_repr(u1.record) == record_repr(u2.record),
        u1.operations@ == u2.operations@,
{
    match decl {
        TypeDecl::Record { name, fields } => {
            assert(record_repr(u1.record).1 =~= record_repr(u2.record).1);
        },
        _ => {
            assert(false);
        },
    }
}

/// The cross product is emitted exactly at field count three.
pub proof fn lemma_cross_product_iff_three(field_count: int)
    ensures
        spec_operations(field_count).contains(OpKind::CrossProduct) <==> field_count == 3,
{
    if field_count == 3 {
        assert(spec_operations(field_count).last() == OpKind::CrossProduct);
        assert(spec_operations(field_count).contains(OpKind::CrossProduct));
    } else {
        assert forall|i: int|
            0 <= i < spec_base_operations().len() implies #[trigger] spec_base_operations()[i]
            != OpKind::CrossProduct by {
        }
    }
}

} // verus!
