//! Routing, configuration and connection logic of a TLS reverse proxy.
//!
//! The crate decides; it performs no I/O. Sockets, files and the event loop
//! belong to the caller, which hands over what it read and carries out what
//! comes back.

pub mod address;
pub mod buffer;
pub mod client;
pub mod config;
pub mod events;
pub mod listeners;
pub mod messages;
pub mod nesting;
pub mod routing;
pub mod server;
pub mod syntax;
pub mod text;
