//! The secondary still-image format: its header grammar and a parser for
//! the marker segments up to the entropy-coded payload.

pub mod decoder;
pub mod grammar;
