//! A store of hashes under keys, served over a length-prefixed JSON protocol.
//!
//! The library holds the protocol's logic as verified functions on plain
//! values: the store itself, the frame codec, the request parser, the response
//! builder and the per-connection state machine. Sockets, threads and the
//! process's life cycle belong to the program that links it.

pub mod cl_parser;
pub mod connection;
pub mod escape;
pub mod frame;
pub mod laws;
pub mod request;
pub mod response;
pub mod storage;
