//! From the bytes of a WebAssembly module to a translation that the compiler
//! can lower function by function.
pub mod bodies;
pub mod body_laws;
pub mod debug_laws;
pub mod debuginfo;
pub mod elements;
pub mod error;
pub mod escape_laws;
pub mod exported;
pub mod index;
pub mod laws;
pub mod maps;
pub mod module;
pub mod module_env;
pub mod names;
pub mod naming_laws;
pub mod offsets;
pub mod order;
pub mod parser;
pub mod payload;
pub mod payload_laws;
pub mod raw;
pub mod reader;
pub mod reference_laws;
pub mod run_laws;
pub mod section_laws;
pub mod sections;
pub mod segment_laws;
pub mod signature_laws;
pub mod text;
pub mod translation;
pub mod types;
pub mod view_laws;
pub mod warning;
