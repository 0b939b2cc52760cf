//! The client's configuration: the user's name and the servers it knows.

use vstd::prelude::*;

verus! {

/// The client's configuration file, within the configuration directory.
pub const CLIENT_CONFIG_FILE: &'static str = "clients.toml";

/// The client's configuration.
pub struct ClientConfig {
    pub username: String,
    pub servers: Vec<ServerEntry>,
}

/// A server that the client knows: its name, its address and its key.
pub struct ServerEntry {
    pub name: String,
    pub address: String,
    pub key: String,
}

impl Default for ClientConfig {
    /// The configuration used when there is no file: no name and no servers.
    fn default() -> (r: Self)
        ensures
            r.username@.len() == 0,
            r.servers@.len() == 0,
    {
        ClientConfig { username: String::new(), servers: Vec::new() }
    }
}

} // verus!
