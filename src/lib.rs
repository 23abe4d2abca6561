//! A client for a shared-memory text console device: the layout of the
//! shared region and its control commands, a memoizing glyph cache, and a
//! compositor that turns the cell grid into packed RGB pixels.

pub mod config;
pub mod console;
pub mod font;
pub mod input;
pub mod renderer;
