//! Compiler options and errors shared by the back ends.

use vstd::prelude::*;
use crate::diagnostics::Diagnostic;

verus! {

/// What went wrong, by phase.
#[derive(Debug, Clone, Copy, PartialEq, Eq, Structural)]
pub enum CompileErrorKind {
    Parse,
    Typing,
    Unsupported,
    Internal,
}

/// A compile error: its kind, a message and, when it has one, a structured
/// diagnostic.
#[derive(Debug)]
pub struct CompilerError {
    pub kind: CompileErrorKind,
    pub message: String,
    pub diagnostic: Option<Diagnostic>,
}

impl CompilerError {
    pub fn new(kind: CompileErrorKind, message: String) -> (r: Self)
        ensures
            r.kind == kind,
            r.message == message,
            r.diagnostic is None,
    {
        CompilerError { kind, message, diagnostic: None }
    }

    pub fn with_diagnostic(kind: CompileErrorKind, message: String, diagnostic: Diagnostic) -> (r: Self)
        ensures
            r.kind == kind,
            r.message == message,
            r.diagnostic == Some(diagnostic),
    {
        CompilerError { kind, message, diagnostic: Some(diagnostic) }
    }
}

/// The options the back ends read: whether the build is freestanding and
/// whether the target world is `solve-pure`.
#[derive(Debug, Clone, Copy, PartialEq, Eq, Structural)]
pub struct CompileOptions {
    pub freestanding: bool,
    pub world_is_solve_pure: bool,
}

} // verus!
