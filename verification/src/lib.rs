//! Transports for the Model Context Protocol: a client that listens over
//! server-sent events and posts over HTTP, and a server on standard input and
//! output.
pub mod call;
pub mod endpoint;
pub mod error;
pub mod headers;
pub mod http;
pub mod jsonrpc;
pub mod laws;
pub mod listen;
pub mod sse;
pub mod stdio;
pub mod text;
