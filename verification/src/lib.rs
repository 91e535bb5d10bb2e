//! Core of a clipboard synchronization system: several machines keep a shared
//! byte buffer in step over a central relay that never sees plaintext.
//!
//! The library holds the verified logic: identity derivation from public
//! keys, duplicate suppression on the local buffer, per-recipient encryption
//! fan-out, the relay's handshake and frame-pairing state machines, the
//! identity-addressed broadcast routing, and the inbound decrypt-and-apply
//! decisions. Socket, file and clipboard I/O live outside the library and
//! hand plain values in and out.

pub mod bus;
pub mod client;
pub mod config;
pub mod crypto;
pub mod errors;
pub mod fanout;
pub mod keys;
pub mod protocol;
pub mod relay;
pub mod sink;
pub mod state;
