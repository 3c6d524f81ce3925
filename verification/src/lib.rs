//! Semantic core of a compiler toolchain: an intermediate representation
//! paired with constraint-based type inference and checking, plus an
//! ownership-safe symbol-reference mechanism that links IR nodes to their
//! declaring symbols.

/// IR expressions and the two-phase inference traversal over them
pub mod expression;

/// Functions, signatures, and whole modules
pub mod function;

/// Structured diagnostics and the sink that accumulates them
pub mod reporter;

/// Source locations and values paired with them
pub mod span;

/// The ownership-safe symbol-reference primitive linking IR nodes to declarations
pub mod symbol_box;

/// The type-inference context: scope stack, variable table, expected return type
pub mod type_inference;

/// The type model: concrete types, placeholders, and the morphing/equating relations
pub mod types;

use vstd::prelude::*;

verus! {

/// A compilation unit: a root module holding the functions to infer and check
pub struct Crate {
    /// The root module of the compilation unit
    pub root: crate::function::Module,
}

} // verus!
