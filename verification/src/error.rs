//! Reasons for which a buffer is rejected.

use vstd::prelude::*;

verus! {

/// Why decoding stopped. Every error is final for the buffer at hand: there is
/// no partial result.
#[derive(Clone, Copy, Debug, PartialEq, Eq, Structural)]
pub enum DecodeError {
    /// The format marker is not the known literal.
    UnsupportedFormat,
    /// The format version is not the supported one.
    UnsupportedVersion,
    /// A declared offset or a length computed from the declared offsets is
    /// negative, out of order or beyond the buffer.
    CorruptLayout,
    /// A read or a skip would pass the end of the buffer.
    UnexpectedEndOfData,
    /// A display-style code outside the enumerated styles.
    UnsupportedDisplayStyle,
    /// A field-type code with no scalar encoding.
    UnsupportedFieldType,
    /// A block-type code that is neither measurement nor marker.
    UnsupportedBlockType,
    /// A text region that is not valid UTF-8.
    InvalidText,
}

impl DecodeError {
    /// The diagnostic text of an error.
    pub open spec fn spec_message(self) -> Seq<char> {
        match self {
            DecodeError::UnsupportedFormat => "Unsupported file format"@,
            DecodeError::UnsupportedVersion => "Unsupported file format version"@,
            DecodeError::CorruptLayout => "Corrupt file layout"@,
            DecodeError::UnexpectedEndOfData => "Unexpected end of data"@,
            DecodeError::UnsupportedDisplayStyle => "Unsupported Field Display Style"@,
            DecodeError::UnsupportedFieldType => "Unsupported Field Type"@,
            DecodeError::UnsupportedBlockType => "Unsupported Block Type"@,
            DecodeError::InvalidText => "Unable to parse string"@,
        }
    }

    /// A short diagnostic for the person who supplied the file.
    pub fn message(&self) -> (text: &'static str)
        ensures
            text@ == self.spec_message(),
    {
        match self {
            DecodeError::UnsupportedFormat => "Unsupported file format",
            DecodeError::UnsupportedVersion => "Unsupported file format version",
            DecodeError::CorruptLayout => "Corrupt file layout",
            DecodeError::UnexpectedEndOfData => "Unexpected end of data",
            DecodeError::UnsupportedDisplayStyle => "Unsupported Field Display Style",
            DecodeError::UnsupportedFieldType => "Unsupported Field Type",
            DecodeError::UnsupportedBlockType => "Unsupported Block Type",
            DecodeError::InvalidText => "Unable to parse string",
        }
    }
}

} // verus!
