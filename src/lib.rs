//! A small forwarding HTTP proxy: the target is named by the `url` query
//! parameter, hop-by-hop request headers are dropped, and the upstream
//! response is relayed with permissive CORS headers.
pub mod headers;
pub mod response;
pub mod error;
pub mod target;
pub mod proxy;
