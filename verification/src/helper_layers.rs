//! Building blocks of the gateway's service stack: layers that check,
//! filter or map what passes through them.
pub mod async_filter;
pub mod check;
pub mod function;
pub mod map_response;
