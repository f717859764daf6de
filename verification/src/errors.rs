//! Error types of the indexing pipeline.
//!
//! Each variant names one defined failure; the contracts of the functions
//! that return these errors say exactly on which inputs each one comes.
use vstd::prelude::*;

verus! {

/// A failure while reading a contract source.
#[derive(Debug, Clone, Copy, PartialEq, Eq, Structural)]
pub enum SourceError {
    /// The embedded JSON document of a `StandardJson` source could not be
    /// parsed, or lacks the named source map.  The archive is malformed.
    MalformedDocument,
}

/// A failure while storing a record under an already-used key.
#[derive(Debug, Clone, Copy, PartialEq, Eq, Structural)]
pub enum StoreError {
    /// A record with the same id is already stored.
    DuplicateId,
}

/// A defined failure of the AST-driven source extraction.
#[derive(Debug, Clone, Copy, PartialEq, Eq, Structural)]
pub enum ExtractError {
    /// No compilation unit of the compiled output carries the requested
    /// contract name.
    ContractNotFound,
    /// No original source file matches the file name of the compilation
    /// unit that defines the contract.
    SourceFileMissing,
    /// No function-definition node with the requested name was found in the
    /// contract's AST scope.  Inherited functions and synthesized getters of
    /// public state variables are reported this way.
    FunctionNotFound,
    /// The source-location range of the located node lies outside the
    /// normalized file content.
    InvalidSourceRange,
}

} // verus!
