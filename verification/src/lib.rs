//! A verified core for a server-side WebSocket endpoint: an incremental
//! HTTP request parser, the handshake validator, the RFC 6455 frame codec,
//! and the message reassembler.

pub mod base64;
pub mod digest;
pub mod driver;
pub mod framing;
pub mod headers;
pub mod messaging;
pub mod parser;
pub mod protocol;
pub mod request;
pub mod strutil;
