//! A Network Time Security (NTS) client library.
//!
//! The crate implements the client side of the NTS protocol engine:
//! the NTS-KE record codec, the NTP/NTS extension-field codec, the
//! cookie and key store, the authenticated request/response exchange,
//! and the connection state machine that ties them together.
//!
//! All protocol logic lives here and is verified; sockets, TLS and the
//! async runtime are driven by the embedding application, which feeds
//! plain values (bytes, timestamps, key material) into this crate.

pub mod aead;
pub mod client;
pub mod config;
pub mod error;
pub mod exchange;
pub mod ke;
pub mod packet;
pub mod records;
pub mod store;
pub mod types;
pub mod wire;

pub use client::NtsClient;
pub use config::NtsClientConfig;
pub use error::Error;
pub use types::{NtsKeResult, ServerAddr, TimeSnapshot};
