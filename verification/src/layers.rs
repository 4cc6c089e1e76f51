//! The gateway's layers.
pub mod gateway;
pub mod http_route;
