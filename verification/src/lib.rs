//! Parsing and manifest extraction for annotated C header declarations.
//!
//! The crate reads one header's worth of declaration text through a
//! peek-then-commit cursor ([`walker::Walker`]), recognizes the restricted
//! dialect of types, markers and function declarations used by the target
//! headers, and turns the resulting items into a semantically typed manifest
//! ready for code generation.

pub mod ast;
pub mod camel;
pub mod function;
pub mod grammar;
pub mod manifest;
pub mod strutil;
pub mod tokens;
pub mod walker;
pub mod walker_two;

use vstd::prelude::*;

verus! {

/// Errors of the parsing core.
///
/// `Eof` marks a read that required more input than was available; a caller
/// may fall back to another grammar production. `Malformed` marks a
/// structural violation of the grammar.
#[derive(Debug, Clone, Copy, PartialEq, Eq, Structural)]
pub enum Error {
    Eof,
    Malformed,
}

} // verus!
