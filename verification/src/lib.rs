//! Startup configuration logic for a small chat-bot scaffold.
//!
//! The process around this library connects to a remote gateway, registers a
//! health-check command, and holds a database pool. Everything this library
//! owns is the plain-value logic of that startup path: splitting a
//! space-separated prefix list, recognising a boolean-like flag value,
//! assembling the startup configuration, and producing the health-check
//! reply text.

pub mod config;
pub mod flags;
pub mod health;
pub mod prefixes;
