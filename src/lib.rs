//! Relays the state root of committed chain segments to an anchoring contract.
//!
//! The library holds the logic: the chain model, the event decoder, the
//! configuration checks and the relay's state machine. The host node, the
//! signed contract call and the notification loop run around it.
pub mod chain;
pub mod config;
pub mod decode;
pub mod relay;
