//! The fixed header at the start of a file.
//!
//! | bytes | content |
//! |-------|---------|
//! | 6 | format marker, text |
//! | 2 | format version, signed |
//! | 4 | capture timestamp, signed |
//! | 2 | offset of the info-data section, signed |
//! | 4 | offset of the first data block, signed |
//! | 2 | record length, signed |
//! | 2 | number of logger fields, signed |

use vstd::prelude::*;
use crate::cursor::{
    available, be_i16, be_i32, parse_i16, parse_i32, parse_string, read_text,
};
use crate::error::DecodeError;

verus! {

/// Length of the format marker.
pub const FORMAT_LENGTH: usize = 6;

/// Length of the whole header.
pub const HEADER_LENGTH: usize = 22;

/// The one format version that is understood.
pub const FORMAT_VERSION: i16 = 1;

/// The marker that every file starts with.
pub open spec fn format_marker() -> Seq<char> {
    "MLVLG"@
}

/// The scalars of the file header.
#[derive(Clone, Debug, PartialEq, Eq)]
pub struct FileHeader {
    pub file_format: String,
    pub format_version: i16,
    pub timestamp: i32,
    pub info_data_start: i16,
    pub data_begin_index: i32,
    pub record_length: i16,
    pub num_logger_fields: i16,
}

/// A header as a mathematical value.
pub struct HeaderView {
    pub file_format: Seq<char>,
    pub format_version: i16,
    pub timestamp: i32,
    pub info_data_start: i16,
    pub data_begin_index: i32,
    pub record_length: i16,
    pub num_logger_fields: i16,
}

impl HeaderView {
    /// The declared sections lie in order inside a buffer of `len` bytes.
    pub open spec fn fits(self, len: int) -> bool {
        0 <= self.info_data_start && self.info_data_start <= self.data_begin_index
            && self.data_begin_index <= len
    }
}

impl View for FileHeader {
    type V = HeaderView;

    open spec fn view(&self) -> HeaderView {
        HeaderView {
            file_format: self.file_format@,
            format_version: self.format_version,
            timestamp: self.timestamp,
            info_data_start: self.info_data_start,
            data_begin_index: self.data_begin_index,
            record_length: self.record_length,
            num_logger_fields: self.num_logger_fields,
        }
    }
}

/// The header scalars that stand at `at`, given the marker text.
pub open spec fn header_at(s: Seq<u8>, at: int, marker: Seq<char>) -> HeaderView {
    HeaderView {
        file_format: marker,
        format_version: be_i16(s, at + 6) as i16,
        timestamp: be_i32(s, at + 8) as i32,
        info_data_start: be_i16(s, at + 12) as i16,
        data_begin_index: be_i32(s, at + 14) as i32,
        record_length: be_i16(s, at + 18) as i16,
        num_logger_fields: be_i16(s, at + 20) as i16,
    }
}

/// The header that the bytes at `at` hold, or the first reason for which they
/// hold none. The marker is judged before the version is looked at, and the
/// version before anything that follows it.
pub open spec fn spec_header(s: Seq<u8>, at: int) -> Result<HeaderView, DecodeError> {
    match read_text(s, at, 6) {
        Err(e) => Err(e),
        Ok(marker) => {
            if marker != format_marker() {
                Err(DecodeError::UnsupportedFormat)
            } else if !available(s, at + 6, 2) {
                Err(DecodeError::UnexpectedEndOfData)
            } else if be_i16(s, at + 6) != 1 {
                Err(DecodeError::UnsupportedVersion)
            } else if !available(s, at + 8, 14) {
                Err(DecodeError::UnexpectedEndOfData)
            } else if !header_at(s, at, marker).fits(s.len() as int) {
                Err(DecodeError::CorruptLayout)
            } else {
                Ok(header_at(s, at, marker))
            }
        },
    }
}

/// The view of the outcome of a header decode.
pub open spec fn header_result(r: Result<FileHeader, DecodeError>) -> Result<
    HeaderView,
    DecodeError,
> {
    match r {
        Ok(header) => Ok(header@),
        Err(e) => Err(e),
    }
}

/// Decodes the header at the cursor and moves the cursor past it. On failure
/// the cursor stays where it was.
pub fn decode_header(buff: &[u8], offset: &mut usize) -> (r: Result<FileHeader, DecodeError>)
    ensures
        header_result(r) == spec_header(buff@, *old(offset) as int),
        r is Ok ==> *final(offset) == *old(offset) + 22,
        r is Err ==> *final(offset) == *old(offset),
        r is Ok ==> 0 <= r->Ok_0.info_data_start <= r->Ok_0.data_begin_index <= buff@.len(),
{
    let mut at: usize = *offset;
    let file_format: String = parse_string(buff, &mut at, FORMAT_LENGTH)?;
    if file_format != "MLVLG".to_owned() {
        return Err(DecodeError::UnsupportedFormat);
    }
    let format_version: i16 = parse_i16(buff, &mut at)?;
    if format_version != FORMAT_VERSION {
        return Err(DecodeError::UnsupportedVersion);
    }
    let timestamp: i32 = parse_i32(buff, &mut at)?;
    let info_data_start: i16 = parse_i16(buff, &mut at)?;
    let data_begin_index: i32 = parse_i32(buff, &mut at)?;
    let record_length: i16 = parse_i16(buff, &mut at)?;
    let num_logger_fields: i16 = parse_i16(buff, &mut at)?;
    if info_data_start < 0 || (info_data_start as i32) > data_begin_index
        || data_begin_index as usize > buff.len() {
        return Err(DecodeError::CorruptLayout);
    }
    *offset = at;
    Ok(
        FileHeader {
            file_format,
            format_version,
            timestamp,
            info_data_start,
            data_begin_index,
            record_length,
            num_logger_fields,
        },
    )
}

} // verus!
