//! Clipboard synchronisation between devices that share a secret: the wire
//! vocabulary, the relay's groups and registry, the relay's per-connection
//! state machine and the client's sync engine.

pub mod config;
pub mod crypto;
pub mod group;
pub mod handler;
pub mod protocol;
pub mod registry;
pub mod sync;
pub mod types;

pub use crypto::hash_secret;
pub use protocol::{ClientMessage, ServerMessage};
pub use types::{ClipboardEntry, ClipboardItem};
