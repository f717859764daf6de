//! A content-addressed index of smart-contract source code and of the
//! functions it defines.
//!
//! Contract sources are ingested in four shapes (a single Solidity file, an
//! ordered set of Solidity files, a single Vyper file, or a single JSON
//! document embedding a named source map), fingerprinted by a
//! whitespace-insensitive content hash, and stored under that hash.  A
//! paginated orchestrator hands each stored contract to an external compiler
//! toolchain; from the compiled output, an AST-driven extractor recovers the
//! literal source text of every ABI-exposed function and turns it into one
//! row per function.
//!
//! This crate holds the verified core: identity hashing, path sanitization,
//! the content-addressed store, the pagination and fan-in logic of the
//! orchestrator, and the AST extraction.  Disk, database and toolchain
//! bindings live outside it and hand plain values in and out.
#![allow(unused_imports)]

pub mod ast;
pub mod chars;
pub mod errors;
pub mod extract;
pub mod functions;
pub mod hashing;
pub mod orchestrator;
pub mod path;
pub mod source;
pub mod store;
