//! An in-memory key-value server in the style of Redis: strings, lists,
//! hashes and sets kept under byte-string keys, a length-prefixed wire
//! protocol, transactions, publish/subscribe channels, an append-only
//! command log and expiration bookkeeping.

pub mod text;
pub mod error;
pub mod redis;
pub mod store;
pub mod server;
pub mod pubsub;
pub mod commands;
pub mod transactions;
pub mod protocol;
pub mod dispatch;
pub mod persistence;
pub mod ttl;
pub mod client;
pub mod laws;
pub mod command_laws;
pub mod codec;
pub mod metrics;
