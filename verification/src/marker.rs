//! Markers: information that is attached to a request and read back from it.
pub mod extension;
pub mod header;
