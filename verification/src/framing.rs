//! The RFC 6455 frame layer: frame data types, the byte-wise incremental
//! frame parser, and the frame composer.

pub mod composer;
pub mod parser;
pub mod types;
