//! Structural descriptions of the type declarations handed to the
//! generators, and the fixed set of primitive numeric field kinds.

use vstd::prelude::*;

verus! {

/// The fixed enumerated set of primitive numeric kinds a record field
/// or a matrix element may have.
#[derive(Clone, Copy, PartialEq, Eq, Structural, Debug)]
pub enum ScalarType {
    I8,
    I16,
    I32,
    I64,
    I128,
    Isize,
    U8,
    U16,
    U32,
    U64,
    U128,
    Usize,
    F32,
    F64,
}

/// One generic argument of a type-alias declaration: either a type by
/// its text, or a constant dimension.
pub enum GenericArg {
    TypeName(String),
    ConstVal(usize),
}

/// The structural description of one type declaration, as the
/// surrounding toolchain's parser hands it over.  Field and element
/// types are carried as their declared text; the generators decide
/// which texts name a primitive numeric kind.
pub enum TypeDecl {
    /// A record with named fields: `(field name, field type text)` in
    /// declaration order.
    Record { name: String, fields: Vec<(String, String)> },
    /// A tuple-like record: field type texts only.
    TupleRecord { name: String, field_types: Vec<String> },
    /// An enumerated type.
    Enumeration { name: String },
    /// A type alias naming a generic container instantiation.
    Alias { name: String, container: String, args: Vec<GenericArg> },
}

/// Which primitive numeric kind, if any, a type text names.
pub open spec fn spec_scalar_of(s: Seq<char>) -> Option<ScalarType> {
    if s == seq!['i', '8'] {
        Some(ScalarType::I8)
    } else if s == seq!['i', '1', '6'] {
        Some(ScalarType::I16)
    } else if s == seq!['i', '3', '2'] {
        Some(ScalarType::I32)
    } else if s == seq!['i', '6', '4'] {
        Some(ScalarType::I64)
    } else if s == seq!['i', '1', '2', '8'] {
        Some(ScalarType::I128)
    } else if s == seq!['i', 's', 'i', 'z', 'e'] {
        Some(ScalarType::Isize)
    } else if s == seq!['u', '8'] {
        Some(ScalarType::U8)
    } else if s == seq!['u', '1', '6'] {
        Some(ScalarType::U16)
    } else if s == seq!['u', '3', '2'] {
        Some(ScalarType::U32)
    } else if s == seq!['u', '6', '4'] {
        Some(ScalarType::U64)
    } else if s == seq!['u', '1', '2', '8'] {
        Some(ScalarType::U128)
    } else if s == seq!['u', 's', 'i', 'z', 'e'] {
        Some(ScalarType::Usize)
    } else if s == seq!['f', '3', '2'] {
        Some(ScalarType::F32)
    } else if s == seq!['f', '6', '4'] {
        Some(ScalarType::F64)
    } else {
        None
    }
}

/// Whether two type texts are the same.
pub(crate) fn text_eq(a: &str, b: &str) -> (r: bool)
    ensures
        r == (a@ == b@),
{
    let x: String = a.to_owned();
    let y: String = b.to_owned();
    x == y
}

/// Maps a type text to the primitive numeric kind it names, if any.
pub fn scalar_of(s: &str) -> (r: Option<ScalarType>)
    ensures
        r == spec_scalar_of(s@),
{
    proof {
        reveal_strlit("i8");
        reveal_strlit("i16");
        reveal_strlit("i32");
        reveal_strlit("i64");
        reveal_strlit("i128");
        reveal_strlit("isize");
        reveal_strlit("u8");
        reveal_strlit("u16");
        reveal_strlit("u32");
        reveal_strlit("u64");
        reveal_strlit("u128");
        reveal_strlit("usize");
        reveal_strlit("f32");
        reveal_strlit("f64");
        assert("i8"@ =~= seq!['i', '8']);
        assert("i16"@ =~= seq!['i', '1', '6']);
        assert("i32"@ =~= seq!['i', '3', '2']);
        assert("i64"@ =~= seq!['i', '6', '4']);
        assert("i128"@ =~= seq!['i', '1', '2', '8']);
        assert("isize"@ =~= seq!['i', 's', 'i', 'z', 'e']);
        assert("u8"@ =~= seq!['u', '8']);
        assert("u16"@ =~= seq!['u', '1', '6']);
        assert("u32"@ =~= seq!['u', '3', '2']);
        assert("u64"@ =~= seq!['u', '6', '4']);
        assert("u128"@ =~= seq!['u', '1', '2', '8']);
        assert("usize"@ =~= seq!['u', 's', 'i', 'z', 'e']);
        assert("f32"@ =~= seq!['f', '3', '2']);
        assert("f64"@ =~= seq!['f', '6', '4']);
    }
    if text_eq(s, "i8") {
        Some(ScalarType::I8)
    } else if text_eq(s, "i16") {
        Some(ScalarType::I16)
    } else if text_eq(s, "i32") {
        Some(ScalarType::I32)
    } else if text_eq(s, "i64") {
        Some(ScalarType::I64)
    } else if text_eq(s, "i128") {
        Some(ScalarType::I128)
    } else if text_eq(s, "isize") {
        Some(ScalarType::Isize)
    } else if text_eq(s, "u8") {
        Some(ScalarType::U8)
    } else if text_eq(s, "u16") {
        Some(ScalarType::U16)
    } else if text_eq(s, "u32") {
        Some(ScalarType::U32)
    } else if text_eq(s, "u64") {
        Some(ScalarType::U64)
    } else if text_eq(s, "u128") {
        Some(ScalarType::U128)
    } else if text_eq(s, "usize") {
        Some(ScalarType::Usize)
    } else if text_eq(s, "f32") {
        Some(ScalarType::F32)
    } else if text_eq(s, "f64") {
        Some(ScalarType::F64)
    } else {
        None
    }
}

} // verus!
