//! Compression and decompression: the encodings and how they are named in
//! headers.
pub mod compress_type;
pub mod content_encoding;
