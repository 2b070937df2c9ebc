pub mod bitstream;
pub mod chunk;
pub mod compress;
pub mod crc32;
pub mod decoder;
pub mod deflate;
pub mod encoder;
pub mod filters;
pub mod font;
pub mod grammar;
pub mod interlace;
pub mod jpeg;
pub mod scanline_reader;
pub mod scanline_writer;

use vstd::prelude::*;

verus! {

} // verus!
