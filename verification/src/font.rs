//! The font-outline container: its data model, its parser, and a simple
//! text-to-glyph shaper.

pub mod grammar;
pub mod parser;
pub mod shaper;
