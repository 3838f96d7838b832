//! Server side of a length-prefix framed request/response protocol: a wire
//! codec that turns an arbitrarily fragmented byte stream into discrete
//! messages and back, and a dispatcher that maps each decoded request to a
//! response.

pub mod codec;
pub mod message;
pub mod server;
pub mod varint;
