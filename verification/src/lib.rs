//! A library for querying a game server's status over its legacy text
//! handshake, together with the wire codecs that protocol family shares:
//! variable-length integers and length-prefixed wide strings.
//!
//! The caller owns the stream: this crate computes the bytes to send and
//! parses the bytes received, and never touches the network itself.

pub mod status;
pub mod text;
pub mod varint;
pub mod wide;
