//! The core of a browser terminal: the client's view of a PTY stream (screen
//! state, scrolling, selection, painting, keyboard input) and the server's
//! decisions about sessions, history and frames.

pub mod client;
pub mod server;
pub mod text;
pub mod wasm_client;
