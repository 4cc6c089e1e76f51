//! Pieces shared by the plugin layers.
pub mod comde;
