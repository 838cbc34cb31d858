//! A "decryption reveal" animation engine: an input string is obscured by a
//! stream of random glyphs that flicker tick by tick, and each character locks
//! in once a matching glyph lands on it. The library holds the reveal
//! simulation (the target, rolling and revealed grids and the tick algorithm)
//! and the rasterization of each tick into a list of drawing operations; a
//! thin front end turns those operations into image frames.

pub mod codec;
pub mod color;
pub mod grid;
pub mod layout;
pub mod render;
pub mod rng;

pub use color::Color;
pub use grid::{Cell, RevealGrid};
