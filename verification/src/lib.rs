//! A verified code-generation engine: a pipeline that takes a structured
//! description of a source item (a struct with named fields, an enum, or a
//! token block), interprets the declarative annotations attached to it,
//! applies one of several structural transformations, and emits a new token
//! fragment together with the diagnostics gathered along the way.
//!
//! The pipeline never aborts on a recoverable mistake: a malformed annotation
//! costs one diagnostic and the surrounding fields keep their default
//! behaviour, and the final emission renders every collected diagnostic as an
//! error token alongside (never instead of) the otherwise-valid output.

pub mod ast;
pub mod attrs;
pub mod builder;
pub mod debug;
pub mod diag;
pub mod emit;
pub mod generics;
pub mod name;
pub mod repeat;
pub mod token;
pub mod sorted;
pub mod views;
