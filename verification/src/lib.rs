//! An inventory of pointer and ownership shapes in source declarations.
//!
//! Given a parsed source file, the walker extracts every top-level function
//! and struct, recovers the literal text of each type annotation from its
//! source span, and classifies that text into a small set of pointer kinds
//! (owned handle, borrowed reference, raw pointer, plain value). The result
//! is one structured record per declaration, ready for a downstream
//! migration pipeline.

pub mod ast;
pub mod classify;
pub mod kinds;
pub mod records;
pub mod span;
pub mod walker;

pub use kinds::PointerKind;
pub use span::SrcSpan;
