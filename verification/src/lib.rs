//! A single-process cluster node speaking a line-delimited JSON
//! request/reply protocol: a one-time `init` handshake followed by a
//! stream of typed requests (`echo`, `generate`, `broadcast`, `read`,
//! `topology`), each answered on its own output line with a correlated
//! reply.

pub mod bytes;
pub mod json;
pub mod message;
pub mod keys;
pub mod decode;
pub mod encode;
pub mod node;
pub mod laws;
pub mod roundtrip;
