//! The terminal client that is bound to the page by `wasm-bindgen`.
//!
//! It shares colors, graphics, keyboard input and query replies with
//! [`crate::client`], but keeps no scrollback, highlights a rectangle and
//! paints the whole grid in passes.

pub mod atlas;
pub mod exports;
pub mod terminal;
