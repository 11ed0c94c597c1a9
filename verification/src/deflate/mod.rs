//! Pieces of a DEFLATE compressor.
pub mod lz77;
