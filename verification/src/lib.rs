//! Interpolation and merging for declarative service-definition documents.
//!
//! The library tokenizes shell-style variable references inside string
//! scalars, evaluates them against an explicit environment, walks whole
//! structured-value trees, projects trees onto a typed document schema,
//! validates cross-field constraints, and folds many documents into one
//! combined document with deterministic override semantics.

pub mod tokens;
pub mod env;
pub mod eval;
pub mod parser;
pub mod value;
pub mod walker;
pub mod text;
pub mod schema;
pub mod project;
pub mod merge;
pub mod loader;
pub mod laws;
