//! Parsing, validation and serialisation of the chunk-based PNG container
//! format: type codes, checksummed chunk records and whole containers.
pub mod errors;
pub mod chunk_type;
pub mod text;
pub mod crc32;
pub mod chunk;
pub mod png;
