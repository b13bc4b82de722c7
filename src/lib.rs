//! A small static-file HTTP/1.1 server core: method sniffing, request-target
//! resolution with a traversal guard, header scanning and response framing.
//! All byte-level decisions live here; sockets and files are handled by the
//! caller.
pub mod config;
pub mod connection;
pub mod method;
pub mod request;
pub mod resolve;
pub mod response;
pub mod status;
pub mod text;
