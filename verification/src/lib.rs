//! Schema-driven synthesis of pseudo-random structured documents.
//!
//! Given a schema tree that declares named properties with scalar or nested
//! object types, the library produces any number of independent documents
//! whose shape mirrors the schema and whose scalar leaves are drawn at
//! random.  Reading schema text and writing the produced documents out are
//! the embedding program's job; the library works on plain values.

pub mod json;
pub mod schema;
pub mod document;
pub mod random;
pub mod generator;
pub mod params;
