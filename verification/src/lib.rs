//! The wire layer of an IRC-style chat protocol: a message codec
//! (tags, source and command grammar, parse and serialize) and a stream
//! framer that extracts CRLF-terminated frames from a growing receive
//! buffer while enforcing the protocol's line-length limit.

pub mod channel;
pub mod command;
pub mod framer;
pub mod message;
pub mod numeric;
pub mod text;
pub mod types;
