//! The browser side of the terminal.

pub mod atlas;
pub mod canvas;
pub mod cells;
pub mod color;
pub mod exports;
pub mod graphics;
pub mod input;
pub mod instances;
pub mod measure;
pub mod mend;
pub mod paint;
pub mod query;
pub mod screen;
pub mod scroll;
pub mod selection;
pub mod state;
pub mod stream;
