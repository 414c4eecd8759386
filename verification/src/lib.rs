//! Verified core of a minimal loopback HTTP listener that captures the
//! redirect (or POSTed payload) at the end of an OAuth authorization-code
//! flow in a desktop application.
//!
//! The crate holds the pure, verified logic of that listener: the
//! port-binding strategy, the tolerant request parser, the
//! `Content-Length`-framed body assembly, the fixed CORS-enabled response,
//! and the decisions of the accept loop and of the out-of-band cancellation
//! protocol. The sockets themselves (binding, reading, writing, the
//! background thread) live outside the verified library and hand plain
//! byte vectors in and out.

pub mod config;
pub mod connection;
pub mod http;
pub mod response;
pub mod server;
