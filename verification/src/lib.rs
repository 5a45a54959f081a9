//! Interpreter for declarative launch-description documents.
//!
//! A launch document is a tree of process-launch directives — bare
//! executables and structured nodes — governed by conditional guards,
//! lexically scoped variable and environment bindings, recursive inclusion
//! of further documents, and an embedded `$(command args)` substitution
//! language. The interpreter resolves such a tree, together with
//! caller-supplied arguments, an environment snapshot and a package
//! registry, into a flat profile of fully-expanded launch records.

pub mod errors;
pub mod expr;
pub mod laws;
pub mod profile;
pub mod registry;
pub mod resolve;
pub mod schema;
pub mod state;
pub mod strmap;
pub mod subst;
pub mod util;
