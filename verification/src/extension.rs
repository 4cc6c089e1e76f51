//! Values the gateway attaches to requests.
pub mod matched;
