//! The data that travels between client and server.

pub mod message;
pub mod session_info;
