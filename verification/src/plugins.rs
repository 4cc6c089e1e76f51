//! Request and response filters and the context they work on.
pub mod context;
pub mod filters;
