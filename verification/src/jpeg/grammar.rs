//! The data model of the secondary still-image format's interchange header:
//! its tables, frame and scan headers, and the entropy-coded payload.

use vstd::prelude::*;

verus! {

pub type Marker = u16;

/// The application header that opens an interchange file.
#[derive(Debug, Clone, Copy, PartialEq, Eq)]
pub struct ApplicationHeader {
    pub version: (u8, u8),
    pub unit: u8,
    pub density: (u16, u16),
    pub thumbnail: (u8, u8),
}

/// The element width of a quantization table.
#[derive(Debug, Clone, Copy, PartialEq, Eq, Structural)]
pub enum Precision {
    Eight,
    Sixteen,
}

impl Precision {
    /// The precision a set flag bit selects.
    pub fn from_flag(wide: bool) -> (r: Precision)
        ensures
            (r is Sixteen) == wide,
    {
        if wide {
            Precision::Sixteen
        } else {
            Precision::Eight
        }
    }

    /// How many bytes one table element occupies.
    pub fn element_width(&self) -> (n: usize)
        ensures
            n == (if self is Sixteen {
                2int
            } else {
                1int
            }),
    {
        match self {
            Precision::Eight => 1,
            Precision::Sixteen => 2,
        }
    }
}

/// One quantization table: its flag byte and its 64 elements.
#[derive(Debug)]
pub struct QuantizationTable {
    pub flag: u8,
    pub table_elements: Vec<u16>,
}

impl QuantizationTable {
    /// The element width named by the flag's high four bits.
    pub fn precision(&self) -> (r: Precision)
        ensures
            (r is Sixteen) == (self.flag >> 4 == 1),
    {
        Precision::from_flag(self.flag >> 4 == 1)
    }

    /// The destination identifier in the flag's low four bits.
    pub fn table_identifier(&self) -> (r: u8)
        ensures
            r == self.flag & 0b1111,
    {
        self.flag & 0b1111
    }
}

/// Whether an entropy-coding table drives the DC or the AC coefficients.
#[derive(Debug, Clone, Copy, PartialEq, Eq, Structural)]
pub enum HuffmanTableClass {
    AC,
    DC,
}

/// One entropy-coding table: its flag byte, the per-length code counts, and
/// the coded values.
#[derive(Debug)]
pub struct HuffmanTable {
    pub flag: u8,
    pub code_lengths: Vec<u8>,
    pub values: Vec<u8>,
}

impl HuffmanTable {
    /// The class named by the flag's high four bits.
    pub fn table_class(&self) -> (r: HuffmanTableClass)
        ensures
            (r is AC) == (self.flag >> 4 == 1),
    {
        if (self.flag >> 4) == 1 {
            return HuffmanTableClass::AC;
        }

        HuffmanTableClass::DC
    }

    /// The destination identifier in the flag's low four bits.
    pub fn table_identifier(&self) -> (r: u8)
        ensures
            r == self.flag & 0b1111,
    {
        self.flag & 0b1111
    }
}

/// The coding process a frame marker announces.
#[derive(Debug, Clone, Copy, PartialEq, Eq, Structural)]
pub enum EncodingProcess {
    BaselineDCT,
    HuffmanExtendedSequentialDCT,
    HuffmanProgressiveDCT,
    HuffmanLossless,
    ArithmeticExtendedSequentialDCT,
    ArithmeticProgressiveDCT,
    ArithmeticLossless,
}

impl EncodingProcess {
    /// The process the low four marker bits name, if defined.
    pub open spec fn spec_from_u8(value: u8) -> Option<EncodingProcess> {
        match value {
            0u8 => Some(EncodingProcess::BaselineDCT),
            1u8 => Some(EncodingProcess::HuffmanExtendedSequentialDCT),
            2u8 => Some(EncodingProcess::HuffmanProgressiveDCT),
            3u8 => Some(EncodingProcess::HuffmanLossless),
            9u8 => Some(EncodingProcess::ArithmeticExtendedSequentialDCT),
            10u8 => Some(EncodingProcess::ArithmeticProgressiveDCT),
            11u8 => Some(EncodingProcess::ArithmeticLossless),
            _ => None,
        }
    }

    pub fn try_from_u8(value: u8) -> (r: Option<EncodingProcess>)
        ensures
            r == EncodingProcess::spec_from_u8(value),
    {
        match value {
            0u8 => Some(EncodingProcess::BaselineDCT),
            1u8 => Some(EncodingProcess::HuffmanExtendedSequentialDCT),
            2u8 => Some(EncodingProcess::HuffmanProgressiveDCT),
            3u8 => Some(EncodingProcess::HuffmanLossless),
            9u8 => Some(EncodingProcess::ArithmeticExtendedSequentialDCT),
            10u8 => Some(EncodingProcess::ArithmeticProgressiveDCT),
            11u8 => Some(EncodingProcess::ArithmeticLossless),
            _ => None,
        }
    }
}

/// The frame header: coding process, sample geometry, and components.
#[derive(Debug)]
pub struct StartOfFrame {
    pub encoding_process: EncodingProcess,
    pub sample_precision: u8,
    pub lines: u16,
    pub samples_per_line: u16,
    pub components: Vec<Component>,
}

/// One frame component.
#[derive(Debug, Clone, Copy, PartialEq, Eq, Structural)]
pub struct Component {
    pub identifier: u8,
    pub sampling_factor: u8,
    pub quantization_table_destination_selector: u8,
}

/// The scan header: component selectors and the spectral selection bounds.
#[derive(Debug)]
pub struct StartOfScan {
    pub components: Vec<(u8, u8)>,
    /// The first and last coefficient of the spectral selection.
    pub spectral_select: (u8, u8),
    pub approximation: u8,
}

/// A whole parsed interchange header, with the entropy-coded payload
/// borrowed from the input buffer.
#[derive(Debug)]
pub struct JFIF<'a> {
    pub application_header: ApplicationHeader,
    pub quantization_tables: Vec<QuantizationTable>,
    pub huffman_tables: Vec<HuffmanTable>,
    pub start_of_frame: StartOfFrame,
    pub start_of_scan: StartOfScan,
    pub image_data: &'a [u8],
}

} // verus!
