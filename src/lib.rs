//! Relays short text notifications received over a socket to the desktop.
//!
//! This crate holds the decisions of the relay: how raw socket bytes become
//! the lines of a notification, which port to listen on, how menu events are
//! classified, and how the network context and the user-interface context
//! agree to shut down together.
pub mod config;
pub mod extract;
pub mod frame;
pub mod shutdown;
pub mod menu;
pub mod server;
