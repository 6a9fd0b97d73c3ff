//! A verified core for a peer-to-peer session host: layered address
//! decomposition, peer-identity derivation, and the state machine of a
//! single session's control loop.

pub mod addrvalue;
pub mod identity;
pub mod multiaddr;
pub mod session;
pub mod strutil;
