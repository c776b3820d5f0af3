//! The server side of the terminal.

pub mod connection;
pub mod frames;
pub mod session;
