//! Core of a live Typst editing backend: the compilation environment that
//! resolves workspace files, shadows the open document with an in-memory
//! overlay and caches parses, plus the per-page export cache that tells the
//! front end which rendered pages actually changed between compiles.

use vstd::prelude::*;

pub mod bytemap;
pub mod completion;
pub mod diagnostics;
pub mod engine;
pub mod environment;
pub mod export_cache;
pub mod fonts;
pub mod ident;
pub mod outside;
pub mod pathgen;
pub mod text;
pub mod timestamp;

verus! {

/// Error taxonomy of the engine boundary.
///
/// Diagnostics from a failed compile are reported separately as
/// `TypstDiagnostic` values; every other failure is one of these.
#[derive(Clone, Copy, Debug, PartialEq, Eq, Structural)]
pub enum NoleError {
    /// The workspace root is invalid or the path escapes it.
    WorkspaceError,
    /// The path cannot be resolved to an identifier.
    NotFound,
    /// Reading a source or resource from disk failed.
    ReadError,
    /// A source could not be parsed.
    ParseError,
    /// No successfully compiled document is available yet.
    NotReady,
    /// Encoding a rendered page or the exported document failed.
    EncodingError,
    /// An internal synchronization fault; never expected in correct use.
    LockError,
}

} // verus!
