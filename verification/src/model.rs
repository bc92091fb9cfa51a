//! The codes of the format and the values they select.

use vstd::prelude::*;
use crate::cursor::{
    be_i16, be_i32, be_i64, be_i8, be_u16, be_u32, offset_after, parse_i16, parse_i32, parse_i64,
    parse_i8, parse_single, parse_u16, parse_u32, parse_u8,
};
use crate::error::DecodeError;

verus! {

/// The output formats a document can be projected into.
#[derive(Clone, Copy, Debug, PartialEq, Eq, Structural)]
pub enum Formats {
    /// Tab-delimited table of display values.
    Csv,
    /// JSON document of raw values.
    Json,
}

impl Formats {
    /// The format that a selector word names.
    pub open spec fn of_name(name: Seq<char>) -> Option<Formats> {
        if name == "csv"@ {
            Some(Formats::Csv)
        } else if name == "json"@ {
            Some(Formats::Json)
        } else {
            None
        }
    }

    /// The extension of the files written in this format.
    pub open spec fn spec_extension(self) -> Seq<char> {
        match self {
            Formats::Csv => "csv"@,
            Formats::Json => "json"@,
        }
    }

    /// Reads a selector word: `csv` or `json`, nothing else.
    pub fn from_name(name: &str) -> (format: Option<Formats>)
        ensures
            format == Self::of_name(name@),
    {
        let word: String = name.to_owned();
        if word == "csv".to_owned() {
            Some(Formats::Csv)
        } else if word == "json".to_owned() {
            Some(Formats::Json)
        } else {
            None
        }
    }

    /// The extension that replaces the input file's own.
    pub fn extension(&self) -> (ext: &'static str)
        ensures
            ext@ == self.spec_extension(),
    {
        match self {
            Formats::Csv => "csv",
            Formats::Json => "json",
        }
    }
}

/// How a field's display value is meant to be presented.
#[derive(Clone, Copy, Debug, PartialEq, Eq, Structural)]
pub enum DisplayStyle {
    Float,
    Hex,
    Bits,
    Date,
    OnOff,
    YesNo,
    HighLow,
    ActiveInactive,
}

impl DisplayStyle {
    /// The style that a code stands for.
    pub open spec fn of_code(code: int) -> Option<DisplayStyle> {
        if code == 0 {
            Some(DisplayStyle::Float)
        } else if code == 1 {
            Some(DisplayStyle::Hex)
        } else if code == 2 {
            Some(DisplayStyle::Bits)
        } else if code == 3 {
            Some(DisplayStyle::Date)
        } else if code == 4 {
            Some(DisplayStyle::OnOff)
        } else if code == 5 {
            Some(DisplayStyle::YesNo)
        } else if code == 6 {
            Some(DisplayStyle::HighLow)
        } else if code == 7 {
            Some(DisplayStyle::ActiveInactive)
        } else {
            None
        }
    }

    /// The name under which a style is written out.
    pub open spec fn spec_name(self) -> Seq<char> {
        match self {
            DisplayStyle::Float => "Float"@,
            DisplayStyle::Hex => "Hex"@,
            DisplayStyle::Bits => "bits"@,
            DisplayStyle::Date => "Date"@,
            DisplayStyle::OnOff => "On/Off"@,
            DisplayStyle::YesNo => "Yes/No"@,
            DisplayStyle::HighLow => "High/Low"@,
            DisplayStyle::ActiveInactive => "Active/Inactive"@,
        }
    }

    /// Maps a style code to its style; there is no fallback for other codes.
    pub fn from_code(code: i8) -> (style: Option<DisplayStyle>)
        ensures
            style == Self::of_code(code as int),
    {
        match code {
            0 => Some(DisplayStyle::Float),
            1 => Some(DisplayStyle::Hex),
            2 => Some(DisplayStyle::Bits),
            3 => Some(DisplayStyle::Date),
            4 => Some(DisplayStyle::OnOff),
            5 => Some(DisplayStyle::YesNo),
            6 => Some(DisplayStyle::HighLow),
            7 => Some(DisplayStyle::ActiveInactive),
            _ => None,
        }
    }

    /// The name under which the style is written out.
    pub fn name(&self) -> (text: &'static str)
        ensures
            text@ == self.spec_name(),
    {
        match self {
            DisplayStyle::Float => "Float",
            DisplayStyle::Hex => "Hex",
            DisplayStyle::Bits => "bits",
            DisplayStyle::Date => "Date",
            DisplayStyle::OnOff => "On/Off",
            DisplayStyle::YesNo => "Yes/No",
            DisplayStyle::HighLow => "High/Low",
            DisplayStyle::ActiveInactive => "Active/Inactive",
        }
    }
}

/// The scalar encoding of a field inside a measurement block.
#[derive(Clone, Copy, Debug, PartialEq, Eq, Structural)]
pub enum FieldType {
    Unsigned8,
    Signed8,
    Unsigned16,
    Signed16,
    Unsigned32,
    Signed32,
    Signed64,
    /// IEEE 754 single precision.
    Single,
    /// Bit-packed field of one byte.
    Bits8,
    /// Bit-packed field of two bytes.
    Bits16,
    /// Bit-packed field of four bytes.
    Bits32,
}

/// A decoded scalar, before any promotion to floating point: either an
/// integer or the bit pattern of an IEEE 754 single.
#[derive(Clone, Copy, Debug, PartialEq, Eq, Structural)]
pub enum Sample {
    Integer(i64),
    Single(u32),
}

impl FieldType {
    /// The encoding that a type code selects.
    pub open spec fn of_code(code: int) -> Option<FieldType> {
        if code == 0 {
            Some(FieldType::Unsigned8)
        } else if code == 1 {
            Some(FieldType::Signed8)
        } else if code == 2 {
            Some(FieldType::Unsigned16)
        } else if code == 3 {
            Some(FieldType::Signed16)
        } else if code == 4 {
            Some(FieldType::Unsigned32)
        } else if code == 5 {
            Some(FieldType::Signed32)
        } else if code == 6 {
            Some(FieldType::Signed64)
        } else if code == 7 {
            Some(FieldType::Single)
        } else if code == 10 {
            Some(FieldType::Bits8)
        } else if code == 11 {
            Some(FieldType::Bits16)
        } else if code == 12 {
            Some(FieldType::Bits32)
        } else {
            None
        }
    }

    /// The number of bytes that a scalar of this encoding takes.
    pub open spec fn spec_width(self) -> nat {
        match self {
            FieldType::Unsigned8 | FieldType::Signed8 | FieldType::Bits8 => 1,
            FieldType::Unsigned16 | FieldType::Signed16 | FieldType::Bits16 => 2,
            FieldType::Unsigned32 | FieldType::Signed32 | FieldType::Single | FieldType::Bits32 => 4,
            FieldType::Signed64 => 8,
        }
    }

    /// The scalar of this encoding that stands at `at`.
    pub open spec fn sample_at(self, s: Seq<u8>, at: int) -> Sample {
        match self {
            FieldType::Unsigned8 | FieldType::Bits8 => Sample::Integer(s[at] as i64),
            FieldType::Signed8 => Sample::Integer(be_i8(s, at) as i64),
            FieldType::Unsigned16 | FieldType::Bits16 => Sample::Integer(be_u16(s, at) as i64),
            FieldType::Signed16 => Sample::Integer(be_i16(s, at) as i64),
            FieldType::Unsigned32 | FieldType::Bits32 => Sample::Integer(be_u32(s, at) as i64),
            FieldType::Signed32 => Sample::Integer(be_i32(s, at) as i64),
            FieldType::Signed64 => Sample::Integer(be_i64(s, at) as i64),
            FieldType::Single => Sample::Single(be_u32(s, at) as u32),
        }
    }

    /// Maps a type code to its encoding.
    pub fn from_code(code: i8) -> (kind: Option<FieldType>)
        ensures
            kind == Self::of_code(code as int),
    {
        match code {
            0 => Some(FieldType::Unsigned8),
            1 => Some(FieldType::Signed8),
            2 => Some(FieldType::Unsigned16),
            3 => Some(FieldType::Signed16),
            4 => Some(FieldType::Unsigned32),
            5 => Some(FieldType::Signed32),
            6 => Some(FieldType::Signed64),
            7 => Some(FieldType::Single),
            10 => Some(FieldType::Bits8),
            11 => Some(FieldType::Bits16),
            12 => Some(FieldType::Bits32),
            _ => None,
        }
    }

    /// The number of bytes that a scalar of this encoding takes.
    pub fn width(&self) -> (w: usize)
        ensures
            w == self.spec_width(),
    {
        match self {
            FieldType::Unsigned8 | FieldType::Signed8 | FieldType::Bits8 => 1,
            FieldType::Unsigned16 | FieldType::Signed16 | FieldType::Bits16 => 2,
            FieldType::Unsigned32 | FieldType::Signed32 | FieldType::Single | FieldType::Bits32 => 4,
            FieldType::Signed64 => 8,
        }
    }

    /// Reads one scalar of this encoding at the cursor.
    pub fn read(&self, buff: &[u8], offset: &mut usize) -> (r: Result<Sample, DecodeError>)
        ensures
            r == crate::cursor::read(
                buff@,
                *old(offset) as int,
                self.spec_width() as int,
                self.sample_at(buff@, *old(offset) as int),
            ),
            *final(offset) == offset_after(*old(offset) as int, self.spec_width() as int, r is Ok),
    {
        match self {
            FieldType::Unsigned8 | FieldType::Bits8 => {
                let v: u8 = parse_u8(buff, offset)?;
                Ok(Sample::Integer(v as i64))
            },
            FieldType::Signed8 => {
                let v: i8 = parse_i8(buff, offset)?;
                Ok(Sample::Integer(v as i64))
            },
            FieldType::Unsigned16 | FieldType::Bits16 => {
                let v: u16 = parse_u16(buff, offset)?;
                Ok(Sample::Integer(v as i64))
            },
            FieldType::Signed16 => {
                let v: i16 = parse_i16(buff, offset)?;
                Ok(Sample::Integer(v as i64))
            },
            FieldType::Unsigned32 | FieldType::Bits32 => {
                let v: u32 = parse_u32(buff, offset)?;
                Ok(Sample::Integer(v as i64))
            },
            FieldType::Signed32 => {
                let v: i32 = parse_i32(buff, offset)?;
                Ok(Sample::Integer(v as i64))
            },
            FieldType::Signed64 => {
                let v: i64 = parse_i64(buff, offset)?;
                Ok(Sample::Integer(v))
            },
            FieldType::Single => {
                let v: u32 = parse_single(buff, offset)?;
                Ok(Sample::Single(v))
            },
        }
    }
}

} // verus!
