//! Request processing functions.
pub mod http_route;
pub mod server;
