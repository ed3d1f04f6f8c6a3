//! A compiler from AT Protocol Lexicon schema documents to Rust source text:
//! the document model, the mapping of primitives to Rust types, reference
//! resolution, namespace and module layout, and the renderers of each output
//! file, each stated and proved against a model of its result.

pub mod defs;
pub mod enums;
pub mod generator;
pub mod laws;
pub mod modules;
pub mod object;
pub mod paths;
pub mod refs;
pub mod remote;
pub mod resolve;
pub mod schema;
pub mod text;
pub mod types;
pub mod unions;
