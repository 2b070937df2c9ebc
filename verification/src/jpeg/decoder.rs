//! The secondary format's header parser: walks the marker segments of an
//! interchange file up to the entropy-coded payload. Reconstruction of the
//! coded image itself is not part of this library.

use crate::grammar::DecodeError;
use crate::jpeg::grammar::ApplicationHeader;
use crate::jpeg::grammar::Component;
use crate::jpeg::grammar::EncodingProcess;
use crate::jpeg::grammar::HuffmanTable;
use crate::jpeg::grammar::Precision;
use crate::jpeg::grammar::QuantizationTable;
use crate::jpeg::grammar::StartOfFrame;
use crate::jpeg::grammar::StartOfScan;
use crate::jpeg::grammar::Marker;
use crate::jpeg::grammar::JFIF;
use vstd::prelude::*;

verus! {

/// The header parser over one in-memory byte buffer.
#[derive(Debug)]
pub struct JpegDecoder<'a> {
    cursor: usize,
    data: &'a [u8],
}

impl<'a> JpegDecoder<'a> {
    /// The bytes this parser reads.
    pub closed spec fn spec_data(&self) -> Seq<u8> {
        self.data@
    }

    /// How far into the bytes the parser has read.
    pub closed spec fn spec_cursor(&self) -> int {
        self.cursor as int
    }

    pub fn new(data: &'a [u8]) -> (r: JpegDecoder<'a>)
        ensures
            r.spec_data() == data@,
            r.spec_cursor() == 0,
    {
        JpegDecoder { cursor: 0, data }
    }

    /// Parse the interchange header: the start marker, then table, frame,
    /// and scan segments up to the entropy-coded payload, which must end at
    /// an end marker. Exactly four entropy-coding tables must appear.
    pub fn parse_jfif(&mut self) -> (r: Result<JFIF<'a>, DecodeError>)
        ensures
            final(self).spec_data() == old(self).spec_data(),
            r matches Ok(j) ==> j.huffman_tables@.len() == 4,
    {
        let start = match self.read_marker() {
            Ok(m) => m,
            Err(e) => {
                return Err(e);
            },
        };
        if start != 0xffd8 {
            return Err(DecodeError::Structure);
        }

        let mut application_header: Option<ApplicationHeader> = None;
        let mut quantization_tables: Vec<QuantizationTable> = Vec::new();
        let mut huffman_tables: Vec<HuffmanTable> = Vec::new();
        let mut start_of_frame: Option<StartOfFrame> = None;

        loop
            invariant
                self.data@ == old(self).spec_data(),
                self.spec_cursor() <= self.data@.len(),
            decreases self.data@.len() - self.spec_cursor(),
        {
            let marker = match self.read_marker() {
                Ok(m) => m,
                Err(e) => {
                    return Err(e);
                },
            };
            if marker == 0xffe0 {
                let header = match self.parse_application_header() {
                    Ok(h) => h,
                    Err(e) => {
                        return Err(e);
                    },
                };
                application_header = Some(header);
            } else if marker == 0xffdb {
                let table = match self.parse_quantization_table() {
                    Ok(t) => t,
                    Err(e) => {
                        return Err(e);
                    },
                };
                quantization_tables.push(table);
            } else if marker == 0xffc4 {
                let table = match self.parse_huffman_table() {
                    Ok(t) => t,
                    Err(e) => {
                        return Err(e);
                    },
                };
                huffman_tables.push(table);
            } else if marker == 0xffda {
                let start_of_scan = match self.parse_start_of_scan() {
                    Ok(s) => s,
                    Err(e) => {
                        return Err(e);
                    },
                };
                let image_data = match self.parse_image_data() {
                    Ok(d) => d,
                    Err(e) => {
                        return Err(e);
                    },
                };
                let end = match self.read_marker() {
                    Ok(m) => m,
                    Err(e) => {
                        return Err(e);
                    },
                };
                if end != 0xffd9 {
                    return Err(DecodeError::Structure);
                }
                if huffman_tables.len() != 4 {
                    return Err(DecodeError::Structure);
                }
                let application_header = match application_header {
                    Some(h) => h,
                    None => {
                        return Err(DecodeError::Structure);
                    },
                };
                let start_of_frame = match start_of_frame {
                    Some(f) => f,
                    None => {
                        return Err(DecodeError::Structure);
                    },
                };
                return Ok(
                    JFIF {
                        application_header,
                        quantization_tables,
                        huffman_tables,
                        start_of_frame,
                        start_of_scan,
                        image_data,
                    },
                );
            } else if marker >> 8 == 0xff && (marker as u8) & 0xf0 == 0xc0 {
                if start_of_frame.is_some() {
                    return Err(DecodeError::Structure);
                }
                let frame = match self.parse_start_of_frame(marker as u8) {
                    Ok(f) => f,
                    Err(e) => {
                        return Err(e);
                    },
                };
                start_of_frame = Some(frame);
            } else {
                // A marker this parser does not interpret.
                return Err(DecodeError::Structure);
            }
        }
    }

    /// Parse the application header segment, validating its magic name and
    /// declared length.
    fn parse_application_header(&mut self) -> (r: Result<ApplicationHeader, DecodeError>)
        ensures
            final(self).spec_data() == old(self).spec_data(),
            r is Ok ==> old(self).spec_cursor() < final(self).spec_cursor() <= final(self).spec_data().len(),
    {
        let offset = self.cursor;
        let length = match self.read_u16() {
            Ok(v) => v as usize,
            Err(e) => {
                return Err(e);
            },
        };

        let name = match self.read_slice(5) {
            Ok(s) => s,
            Err(e) => {
                return Err(e);
            },
        };
        // "JFIF" and its terminator
        if !(name[0] == 0x4a && name[1] == 0x46 && name[2] == 0x49 && name[3] == 0x46 && name[4]
            == 0) {
            return Err(DecodeError::Structure);
        }

        let v0 = match self.read_u8() {
            Ok(v) => v,
            Err(e) => {
                return Err(e);
            },
        };
        let v1 = match self.read_u8() {
            Ok(v) => v,
            Err(e) => {
                return Err(e);
            },
        };
        let unit = match self.read_u8() {
            Ok(v) => v,
            Err(e) => {
                return Err(e);
            },
        };
        let d0 = match self.read_u16() {
            Ok(v) => v,
            Err(e) => {
                return Err(e);
            },
        };
        let d1 = match self.read_u16() {
            Ok(v) => v,
            Err(e) => {
                return Err(e);
            },
        };
        let t0 = match self.read_u8() {
            Ok(v) => v,
            Err(e) => {
                return Err(e);
            },
        };
        let t1 = match self.read_u8() {
            Ok(v) => v,
            Err(e) => {
                return Err(e);
            },
        };

        if (self.cursor as u128) != (offset as u128) + (length as u128) {
            return Err(DecodeError::Structure);
        }

        Ok(
            ApplicationHeader {
                version: (v0, v1),
                unit,
                density: (d0, d1),
                thumbnail: (t0, t1),
            },
        )
    }

    /// Parse one quantization table segment: the flag byte selects 8- or
    /// 16-bit elements, and the declared length must cover exactly 64 of
    /// them.
    fn parse_quantization_table(&mut self) -> (r: Result<QuantizationTable, DecodeError>)
        ensures
            final(self).spec_data() == old(self).spec_data(),
            r is Ok ==> old(self).spec_cursor() < final(self).spec_cursor() <= final(self).spec_data().len(),
    {
        let offset = self.cursor;
        let length = match self.read_u16() {
            Ok(v) => v as usize,
            Err(e) => {
                return Err(e);
            },
        };

        let flag = match self.read_u8() {
            Ok(v) => v,
            Err(e) => {
                return Err(e);
            },
        };

        let precision = Precision::from_flag((flag >> 4) == 1);
        let width = precision.element_width();

        if (self.cursor as u128) + (width as u128) * 64 != (offset as u128) + (length as u128) {
            return Err(DecodeError::Structure);
        }

        let mut table_elements: Vec<u16> = Vec::new();
        let mut i: usize = 0;
        while i < 64
            invariant
                0 <= i <= 64,
                table_elements@.len() == i,
                self.data@ == old(self).spec_data(),
                old(self).spec_cursor() < self.spec_cursor() <= self.data@.len(),
            decreases 64 - i,
        {
            let v = match precision {
                Precision::Eight => {
                    match self.read_u8() {
                        Ok(b) => b as u16,
                        Err(e) => {
                            return Err(e);
                        },
                    }
                },
                Precision::Sixteen => {
                    match self.read_u16() {
                        Ok(v) => v,
                        Err(e) => {
                            return Err(e);
                        },
                    }
                },
            };
            table_elements.push(v);
            i = i + 1;
        }

        Ok(QuantizationTable { flag, table_elements })
    }

    /// Parse the frame header segment of the frame marker `marker_low`.
    fn parse_start_of_frame(&mut self, marker_low: u8) -> (r: Result<StartOfFrame, DecodeError>)
        ensures
            final(self).spec_data() == old(self).spec_data(),
            r is Ok ==> old(self).spec_cursor() < final(self).spec_cursor() <= final(self).spec_data().len(),
    {
        let encoding_process = match EncodingProcess::try_from_u8(marker_low & 0b1111) {
            Some(p) => p,
            None => {
                return Err(DecodeError::Structure);
            },
        };

        let offset = self.cursor;
        let length = match self.read_u16() {
            Ok(v) => v as usize,
            Err(e) => {
                return Err(e);
            },
        };

        let sample_precision = match self.read_u8() {
            Ok(v) => v,
            Err(e) => {
                return Err(e);
            },
        };
        let lines = match self.read_u16() {
            Ok(v) => v,
            Err(e) => {
                return Err(e);
            },
        };
        let samples_per_line = match self.read_u16() {
            Ok(v) => v,
            Err(e) => {
                return Err(e);
            },
        };
        let number_of_image_components = match self.read_u8() {
            Ok(v) => v,
            Err(e) => {
                return Err(e);
            },
        };

        let mut components: Vec<Component> = Vec::new();
        let mut i: u8 = 0;
        while i < number_of_image_components
            invariant
                self.data@ == old(self).spec_data(),
                old(self).spec_cursor() < self.spec_cursor() <= self.data@.len(),
            decreases number_of_image_components - i,
        {
            let c = match self.parse_component() {
                Ok(c) => c,
                Err(e) => {
                    return Err(e);
                },
            };
            components.push(c);
            i = i + 1;
        }

        if (self.cursor as u128) != (offset as u128) + (length as u128) {
            return Err(DecodeError::Structure);
        }

        Ok(
            StartOfFrame {
                encoding_process,
                sample_precision,
                lines,
                samples_per_line,
                components,
            },
        )
    }

    /// Parse one frame component.
    fn parse_component(&mut self) -> (r: Result<Component, DecodeError>)
        ensures
            final(self).spec_data() == old(self).spec_data(),
            r is Ok ==> final(self).spec_cursor() == old(self).spec_cursor() + 3 && final(self).spec_cursor() <= final(self).spec_data().len(),
    {
        let identifier = match self.read_u8() {
            Ok(v) => v,
            Err(e) => {
                return Err(e);
            },
        };
        let sampling_factor = match self.read_u8() {
            Ok(v) => v,
            Err(e) => {
                return Err(e);
            },
        };
        let quantization_table_destination_selector = match self.read_u8() {
            Ok(v) => v,
            Err(e) => {
                return Err(e);
            },
        };
        Ok(Component { identifier, sampling_factor, quantization_table_destination_selector })
    }

    /// Parse one entropy-coding table segment: the sixteen per-length code
    /// counts, then that many coded values.
    fn parse_huffman_table(&mut self) -> (r: Result<HuffmanTable, DecodeError>)
        ensures
            final(self).spec_data() == old(self).spec_data(),
            r is Ok ==> old(self).spec_cursor() < final(self).spec_cursor() <= final(self).spec_data().len(),
    {
        let offset = self.cursor;
        let length = match self.read_u16() {
            Ok(v) => v as usize,
            Err(e) => {
                return Err(e);
            },
        };

        let flag = match self.read_u8() {
            Ok(v) => v,
            Err(e) => {
                return Err(e);
            },
        };
        let lengths_slice = match self.read_slice(16) {
            Ok(s) => s,
            Err(e) => {
                return Err(e);
            },
        };
        let code_lengths = vstd::slice::slice_to_vec(lengths_slice);

        let mut num_values: usize = 0;
        let mut i: usize = 0;
        while i < 16
            invariant
                0 <= i <= 16,
                16 == code_lengths@.len(),
                num_values <= i * 255,
            decreases 16 - i,
        {
            num_values = num_values + code_lengths[i] as usize;
            i = i + 1;
        }

        let values_slice = match self.read_slice(num_values) {
            Ok(s) => s,
            Err(e) => {
                return Err(e);
            },
        };
        let values = vstd::slice::slice_to_vec(values_slice);

        if (self.cursor as u128) != (offset as u128) + (length as u128) {
            return Err(DecodeError::Structure);
        }

        Ok(HuffmanTable { flag, code_lengths, values })
    }

    /// Parse the scan header segment.
    fn parse_start_of_scan(&mut self) -> (r: Result<StartOfScan, DecodeError>)
        ensures
            final(self).spec_data() == old(self).spec_data(),
    {
        let offset = self.cursor;
        let length = match self.read_u16() {
            Ok(v) => v as usize,
            Err(e) => {
                return Err(e);
            },
        };

        let number_of_image_components = match self.read_u8() {
            Ok(v) => v,
            Err(e) => {
                return Err(e);
            },
        };
        let mut components: Vec<(u8, u8)> = Vec::new();
        let mut i: u8 = 0;
        while i < number_of_image_components
            invariant
                self.data@ == old(self).spec_data(),
            decreases number_of_image_components - i,
        {
            let selector = match self.read_u8() {
                Ok(v) => v,
                Err(e) => {
                    return Err(e);
                },
            };
            let tables = match self.read_u8() {
                Ok(v) => v,
                Err(e) => {
                    return Err(e);
                },
            };
            components.push((selector, tables));
            i = i + 1;
        }

        let select_start = match self.read_u8() {
            Ok(v) => v,
            Err(e) => {
                return Err(e);
            },
        };
        let select_end = match self.read_u8() {
            Ok(v) => v,
            Err(e) => {
                return Err(e);
            },
        };
        let approximation = match self.read_u8() {
            Ok(v) => v,
            Err(e) => {
                return Err(e);
            },
        };

        if (self.cursor as u128) != (offset as u128) + (length as u128) {
            return Err(DecodeError::Structure);
        }

        Ok(StartOfScan { components, spectral_select: (select_start, select_end), approximation })
    }

    /// The entropy-coded payload: everything from the cursor up to the next
    /// end marker.
    fn parse_image_data(&mut self) -> (r: Result<&'a [u8], DecodeError>)
        ensures
            final(self).spec_data() == old(self).spec_data(),
    {
        let start = self.cursor;
        let n = self.data.len();
        if start > n || n < 2 {
            return Err(DecodeError::Truncation);
        }
        let mut end = start;
        while end <= n - 2
            invariant
                start <= end,
                end <= n,
                n == self.data@.len(),
                n >= 2,
                self.data@ == old(self).spec_data(),
                self.spec_cursor() == start,
            decreases n - end,
        {
            if self.data[end] == 0xff && self.data[end + 1] == 0xd9 {
                break ;
            }
            end = end + 1;
        }
        if end > n - 2 {
            return Err(DecodeError::Truncation);
        }
        let out = vstd::slice::slice_subrange(self.data, start, end);
        self.cursor = end;
        Ok(out)
    }

    /// Read one marker word.
    fn read_marker(&mut self) -> (r: Result<Marker, DecodeError>)
        ensures
            final(self).spec_data() == old(self).spec_data(),
            match r {
                Ok(v) => old(self).spec_cursor() + 2 <= old(self).spec_data().len() && v as int
                    == old(self).spec_data()[old(self).spec_cursor()] * 0x100 + old(self).spec_data()[old(self).spec_cursor() + 1] && final(self).spec_cursor() == old(self).spec_cursor() + 2,
                Err(e) => e == DecodeError::Truncation && final(self).spec_cursor() == old(self).spec_cursor(),
            },
    {
        self.read_u16()
    }

    /// Read one byte.
    fn read_u8(&mut self) -> (r: Result<u8, DecodeError>)
        ensures
            final(self).spec_data() == old(self).spec_data(),
            match r {
                Ok(b) => old(self).spec_cursor() < old(self).spec_data().len() && b == old(self).spec_data()[old(self).spec_cursor()] && final(self).spec_cursor() == old(self).spec_cursor() + 1,
                Err(e) => e == DecodeError::Truncation && final(self).spec_cursor() == old(self).spec_cursor(),
            },
    {
        if self.cursor >= self.data.len() {
            return Err(DecodeError::Truncation);
        }
        let b = self.data[self.cursor];
        self.cursor = self.cursor + 1;
        Ok(b)
    }

    /// Read one big-endian 16-bit value.
    fn read_u16(&mut self) -> (r: Result<u16, DecodeError>)
        ensures
            final(self).spec_data() == old(self).spec_data(),
            match r {
                Ok(v) => old(self).spec_cursor() + 2 <= old(self).spec_data().len() && v as int
                    == old(self).spec_data()[old(self).spec_cursor()] * 0x100 + old(self).spec_data()[old(self).spec_cursor() + 1] && final(self).spec_cursor() == old(self).spec_cursor() + 2,
                Err(e) => e == DecodeError::Truncation && final(self).spec_cursor() == old(self).spec_cursor(),
            },
    {
        if self.cursor >= self.data.len() || self.data.len() - self.cursor < 2 {
            return Err(DecodeError::Truncation);
        }
        let c = self.cursor;
        let v = (self.data[c] as u16) * 0x100 + (self.data[c + 1] as u16);
        self.cursor = c + 2;
        Ok(v)
    }

    /// Read `len` bytes.
    fn read_slice(&mut self, len: usize) -> (r: Result<&'a [u8], DecodeError>)
        ensures
            final(self).spec_data() == old(self).spec_data(),
            match r {
                Ok(out) => old(self).spec_cursor() + len <= old(self).spec_data().len() && out@
                    == old(self).spec_data().subrange(
                    old(self).spec_cursor(),
                    old(self).spec_cursor() + len,
                ) && final(self).spec_cursor() == old(self).spec_cursor() + len,
                Err(e) => e == DecodeError::Truncation && final(self).spec_cursor() == old(self).spec_cursor(),
            },
    {
        if self.cursor > self.data.len() || self.data.len() - self.cursor < len {
            return Err(DecodeError::Truncation);
        }
        let out = vstd::slice::slice_subrange(self.data, self.cursor, self.cursor + len);
        self.cursor = self.cursor + len;
        Ok(out)
    }
}

} // verus!
