//! A small LAN chat: length-prefixed TCP framing, a binary chat message
//! format, the connection handshake, command-line parsing and the client's
//! input handling, each with a verified contract.

use vstd::prelude::*;

pub mod args;
pub mod client;
pub mod config;
pub mod endian;
pub mod framing;
pub mod handshake;
pub mod helpers;
pub mod server;
pub mod text;
pub mod types;

verus! {

/// The TCP port that a server listens on unless told otherwise.
pub const DEFAULT_PORT: u16 = 42003;

/// The version of the client-server protocol; both sides must agree on it.
pub const PROTOCOL_VERSION: u16 = 1;

} // verus!
