//! Filtering of network client records for statistics output.
//!
//! Two stateless filters operate on a caller-supplied list of clients:
//! exclusion of clients whose address or name an administrator listed in
//! the configuration, and suppression of clients whose address is the
//! reserved privacy placeholder.

pub mod client;
pub mod config;
pub mod filters;
pub mod laws;
pub mod table;
pub mod text;

pub use client::Client;
pub use config::{ConfigError, ConfigSource};
pub use filters::{remove_excluded_clients, remove_hidden_clients};
pub use table::StringTable;
