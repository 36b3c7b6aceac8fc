//! A compile-time vector-algebra generator, modeled as a pure rule engine.
//!
//! Given the structural description of a record whose fields are all
//! scalars of one numeric kind, the generator validates the record and
//! decides which vector operations to emit; given a matrix type alias it
//! derives the matrix-by-vector multiplication link.  The semantics of
//! the emitted operations are given by the `vector` and `matrix`
//! modules, which carry the element-wise arithmetic with full contracts.

pub mod decl;
pub mod diag;
pub mod gen;
pub mod matlink;
pub mod matrix;
pub mod vector;
