//! What a guest program links against.
pub mod felt;
pub mod hashes;
pub mod types;
