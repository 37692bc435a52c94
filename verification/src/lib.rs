//! Decoder and query interface for the serialized intermediate representation
//! of a compiled interface-definition-language library.
//!
//! The input is a parsed hierarchical document (a JSON-like tree); byte-level
//! parsing and I/O are the caller's concern. `decode` validates the document
//! structurally and builds an immutable [`schema::Library`] model; `resolve`
//! and `walk_type` are the read-side queries that code generators use.

pub mod json;
pub mod schema;
pub mod decode;
pub mod validate;
pub mod query;
