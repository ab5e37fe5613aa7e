//! The error kinds the graph driver can surface, each carrying enough
//! context for a user-visible message.

use vstd::prelude::*;

verus! {

/// What went wrong while building a module graph.
#[derive(Debug, Clone, PartialEq)]
pub enum ModuleGraphError {
    /// The resolver rejected a specifier.
    ResolveFailed { dir: String, specifier: String, cause: String },
    /// A file read failed.
    IoError { path: String, cause: String },
    /// A document parser produced a hard failure.
    ParseError { path: String, cause: String },
    /// A package manifest could not be read or parsed.
    PackageJsonError { path: String, cause: String },
}

} // verus!
