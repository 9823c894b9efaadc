//! An HTTP/2 engine around a memory-to-memory session library: one task per
//! connection drives the session, and no stream has a task of its own.
pub mod body;
pub mod chunk;
pub mod client;
pub mod conn;
pub mod driver;
pub mod error;
pub mod fields;
pub mod head;
pub mod idmap;
pub mod keepalive;
pub mod pump;
pub mod server;
pub mod settings;
pub mod stats;
pub mod streams;
