//! Core logic of a GPU terminal emulator: the character grid and its
//! escape-sequence interpretation, the colour theme, keyboard encoding,
//! glyph-atlas packing and the rendering plan, each with a checked contract.

pub mod atlas;
pub mod fonts;
pub mod glyph_cache;
pub mod header;
pub mod input;
pub mod pty;
pub mod render;
pub mod terminal;
pub mod theme;
