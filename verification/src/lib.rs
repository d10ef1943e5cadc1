//! A Telegram to Nostr message bridge: the settings it reads, the key pair it
//! keeps, and the decisions it takes on each message that crosses it.
pub mod text;
pub mod error;
pub mod config;
pub mod keys;
pub mod telegram;
pub mod state;
pub mod nostr;
pub mod transport;
