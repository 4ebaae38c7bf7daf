//! A compiler from a JSON-Schema description of the glTF asset format to a
//! typed data model: named record and enumeration definitions together with
//! the decode rules (required/optional fields, defaults, value ranges) that
//! generated decoders must follow, plus a reader for the binary (GLB)
//! container envelope.

pub mod emitter;
pub mod glb;
pub mod gltf;
pub mod json;
pub mod parser;
pub mod schema;
pub mod text;

pub use json::Json;
