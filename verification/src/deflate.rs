//! The compressed-container header: validates the two zlib header flag
//! bytes and peels the trailing check value off the stream.

use crate::grammar::DecodeError;
use vstd::prelude::*;

verus! {

/// The two zlib header flag bytes and the trailing check value.
#[derive(Debug, Clone, Copy, PartialEq, Eq, Structural)]
struct ZlibHeader {
    compression_method_flags: u8,
    additional_flags: u8,
    check_value: u32,
}

impl ZlibHeader {
    /// The low four bits of the first flag byte: the compression method.
    fn compression_method(&self) -> (m: u8)
        ensures
            m == self.compression_method_flags % 16,
    {
        self.compression_method_flags % 16
    }

    /// The high four bits of the first flag byte: the window-size exponent.
    fn compression_info(&self) -> (m: u8)
        ensures
            m == self.compression_method_flags / 16,
    {
        self.compression_method_flags / 16
    }
}

/// A validator for the head and tail of a compressed stream.
#[derive(Debug)]
pub struct DeflateDecompressor {
    cursor: usize,
    data: Vec<u8>,
}

impl DeflateDecompressor {
    /// The bytes this validator holds.
    pub closed spec fn spec_data(&self) -> Seq<u8> {
        self.data@
    }

    /// How far into the bytes the validator has read.
    pub closed spec fn spec_cursor(&self) -> int {
        self.cursor as int
    }

    pub fn new(data: Vec<u8>) -> (r: DeflateDecompressor)
        ensures
            r.spec_data() == data@,
            r.spec_cursor() == 0,
    {
        DeflateDecompressor { cursor: 0, data }
    }

    /// Validate the stream's head: the two flag bytes must name compression
    /// method 8 with a window-size exponent of 7, and at least four bytes of
    /// trailing check value must follow them.
    pub fn decompress(&mut self) -> (r: Result<(), DecodeError>)
        requires
            old(self).spec_cursor() == 0,
        ensures
            final(self).spec_data() == (if old(self).spec_data().len() >= 2 && old(
                self,
            ).spec_data().len() - 2 >= 4 {
                old(self).spec_data().subrange(0, old(self).spec_data().len() - 2)
            } else {
                old(self).spec_data()
            }),
            r is Ok <==> old(self).spec_data().len() >= 6 && old(self).spec_data()[0] % 16 == 8
                && old(self).spec_data()[0] / 16 == 7,
    {
        let zlib = match self.parse_zlib() {
            Ok(z) => z,
            Err(e) => {
                return Err(e);
            },
        };

        if zlib.compression_method() != 8 {
            return Err(DecodeError::Corruption);
        }

        if zlib.compression_info() != 7 {
            return Err(DecodeError::Corruption);
        }

        Ok(())
    }

    /// Read the two header flag bytes, then the trailing check value.
    fn parse_zlib(&mut self) -> (r: Result<ZlibHeader, DecodeError>)
        requires
            old(self).spec_cursor() == 0,
        ensures
            match r {
                Ok(z) => {
                    &&& old(self).spec_data().len() >= 6
                    &&& z.compression_method_flags == old(self).spec_data()[0]
                    &&& z.additional_flags == old(self).spec_data()[1]
                    &&& final(self).spec_data() == old(self).spec_data().subrange(
                        0,
                        old(self).spec_data().len() - 2,
                    )
                },
                Err(e) => {
                    &&& e == DecodeError::Truncation
                    &&& !(old(self).spec_data().len() >= 6)
                    &&& final(self).spec_data() == (if old(self).spec_data().len() >= 2 && old(
                        self,
                    ).spec_data().len() - 2 >= 4 {
                        old(self).spec_data().subrange(0, old(self).spec_data().len() - 2)
                    } else {
                        old(self).spec_data()
                    })
                },
            },
    {
        let cmf = match self.read_u8() {
            Ok(b) => b,
            Err(e) => {
                return Err(e);
            },
        };
        let flg = match self.read_u8() {
            Ok(b) => b,
            Err(e) => {
                return Err(e);
            },
        };
        let check_value = match self.read_u32_trailing() {
            Ok(v) => v,
            Err(e) => {
                return Err(e);
            },
        };
        Ok(ZlibHeader { compression_method_flags: cmf, additional_flags: flg, check_value })
    }

    /// Read one byte at the cursor.
    fn read_u8(&mut self) -> (r: Result<u8, DecodeError>)
        ensures
            final(self).spec_data() == old(self).spec_data(),
            match r {
                Ok(b) => old(self).spec_cursor() < old(self).spec_data().len() && b == old(
                    self,
                ).spec_data()[old(self).spec_cursor()] && final(self).spec_cursor() == old(
                    self,
                ).spec_cursor() + 1,
                Err(e) => e == DecodeError::Truncation && old(self).spec_cursor() >= old(
                    self,
                ).spec_data().len() && final(self).spec_cursor() == old(self).spec_cursor(),
            },
    {
        let end = self.data.len();
        if self.cursor >= end {
            return Err(DecodeError::Truncation);
        }

        let b = self.data[self.cursor];
        self.cursor = self.cursor + 1;

        Ok(b)
    }

    /// Read the big-endian check value from the last four bytes of the
    /// stream, and cut the stream back to the span after the cursor.
    fn read_u32_trailing(&mut self) -> (r: Result<u32, DecodeError>)
        ensures
            match r {
                Ok(n) => {
                    &&& old(self).spec_data().len() - old(self).spec_cursor() >= 4
                    &&& final(self).spec_data() == old(self).spec_data().subrange(
                        0,
                        old(self).spec_data().len() - old(self).spec_cursor(),
                    )
                },
                Err(e) => e == DecodeError::Truncation && old(self).spec_data().len() - old(
                    self,
                ).spec_cursor() < 4 && final(self).spec_data() == old(self).spec_data(),
            },
    {
        if self.cursor > self.data.len() {
            return Err(DecodeError::Truncation);
        }
        let span = self.data.len() - self.cursor;

        if span < 4 {
            return Err(DecodeError::Truncation);
        }
        let base = self.data.len() - 4;
        let n = (self.data[base] as u32) * 0x100_0000 + (self.data[base + 1] as u32) * 0x1_0000 + (
        self.data[base + 2] as u32) * 0x100 + (self.data[base + 3] as u32);

        self.data.truncate(span);

        Ok(n)
    }
}

} // verus!
