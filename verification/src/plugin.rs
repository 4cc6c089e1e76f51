//! Route filters of the plugin interface.
pub mod filter;
