//! The server's configuration: the server instances it can run.

use vstd::prelude::*;

verus! {

/// The server's configuration file, within the configuration directory.
pub const SERVER_CONFIG_FILE: &'static str = "servers.toml";

/// The server's configuration.
pub struct ServerConfig {
    pub servers: Vec<ServerEntry>,
}

/// A server instance: its name, the port it listens on and its key.
pub struct ServerEntry {
    pub name: String,
    pub port: u16,
    pub key: String,
}

impl Default for ServerConfig {
    /// The configuration used when there is no file: no servers.
    fn default() -> (r: Self)
        ensures
            r.servers@.len() == 0,
    {
        ServerConfig { servers: Vec::new() }
    }
}

} // verus!
