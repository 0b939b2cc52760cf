//! The client's terminal interface: its state, what a key press does to it,
//! and the text that it shows.

pub mod state;
pub mod view;
