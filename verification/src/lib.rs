//! A minimal HTTP/1.1 request pipeline: header indexing, path routing,
//! the built-in handlers, and the response encoder with optional gzip.
//!
//! Everything here works on octets. The connection itself is not part of
//! the library: a handler writes into a byte buffer that the caller
//! flushes to the peer, and file access is reported to the handlers as a
//! plain value.

pub mod text;
pub mod headers;
pub mod path;
pub mod response;
pub mod encode;
pub mod request;
pub mod files;
pub mod get;
pub mod post;
pub mod connect;
pub mod laws;
