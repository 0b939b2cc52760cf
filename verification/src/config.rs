//! What the client and the server keep in their configuration files.

pub mod client;
pub mod server;
