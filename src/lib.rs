//! Decision logic of a forward proxy: the handshake line, the destination it
//! names, the allowlist check, and the byte relay that follows.
pub mod error;
pub mod handshake;
pub mod destination;
pub mod policy;
pub mod session;
pub mod relay;
