//! The table of logger-field descriptors that follows the header.
//!
//! One descriptor takes 55 bytes:
//!
//! | bytes | content |
//! |-------|---------|
//! | 1 | field-type code, signed |
//! | 34 | name, text |
//! | 10 | units, text |
//! | 1 | display-style code, signed |
//! | 4 | scale, IEEE 754 single |
//! | 4 | transform, IEEE 754 single |
//! | 1 | digits, signed |

use vstd::prelude::*;
use crate::cursor::{
    available, be_i8, be_u32, parse_i8, parse_single, parse_string, read_text,
};
use crate::error::DecodeError;
use crate::model::DisplayStyle;

verus! {

/// Length of a field name.
pub const FIELD_NAME_LENGTH: usize = 34;

/// Length of a field's units.
pub const FIELD_UNITS_LENGTH: usize = 10;

/// Length of one descriptor.
pub const LOGGER_FIELD_LENGTH: usize = 55;

/// One logger field: a named, typed measurement channel.
///
/// `scale` and `transform` are kept as the bit patterns of the IEEE 754
/// singles that the file holds.
#[derive(Clone, Debug, PartialEq, Eq)]
pub struct LoggerField {
    pub field_type: i8,
    pub name: String,
    pub units: String,
    pub display_style: DisplayStyle,
    pub scale_bits: u32,
    pub transform_bits: u32,
    pub digits: i8,
}

/// A descriptor as a mathematical value.
pub struct FieldView {
    pub field_type: i8,
    pub name: Seq<char>,
    pub units: Seq<char>,
    pub display_style: DisplayStyle,
    pub scale_bits: u32,
    pub transform_bits: u32,
    pub digits: i8,
}

impl View for LoggerField {
    type V = FieldView;

    open spec fn view(&self) -> FieldView {
        FieldView {
            field_type: self.field_type,
            name: self.name@,
            units: self.units@,
            display_style: self.display_style,
            scale_bits: self.scale_bits,
            transform_bits: self.transform_bits,
            digits: self.digits,
        }
    }
}

/// The views of a sequence of descriptors.
pub open spec fn field_views(fields: Seq<LoggerField>) -> Seq<FieldView> {
    fields.map_values(|f: LoggerField| f@)
}

/// The descriptor that the 55 bytes at `at` hold, or the first reason for
/// which they hold none.
pub open spec fn spec_field(s: Seq<u8>, at: int) -> Result<FieldView, DecodeError> {
    if !available(s, at, 55) {
        Err(DecodeError::UnexpectedEndOfData)
    } else {
        match read_text(s, at + 1, 34) {
            Err(e) => Err(e),
            Ok(name) => match read_text(s, at + 35, 10) {
                Err(e) => Err(e),
                Ok(units) => match DisplayStyle::of_code(be_i8(s, at + 45)) {
                    None => Err(DecodeError::UnsupportedDisplayStyle),
                    Some(display_style) => Ok(
                        FieldView {
                            field_type: be_i8(s, at) as i8,
                            name,
                            units,
                            display_style,
                            scale_bits: be_u32(s, at + 46) as u32,
                            transform_bits: be_u32(s, at + 50) as u32,
                            digits: be_i8(s, at + 54) as i8,
                        },
                    ),
                },
            },
        }
    }
}

/// The first `count` descriptors of the table that starts at `at`, or the
/// error of the first descriptor that has one.
pub open spec fn spec_fields(s: Seq<u8>, at: int, count: nat) -> Result<
    Seq<FieldView>,
    DecodeError,
>
    decreases count,
{
    if count == 0 {
        Ok(Seq::empty())
    } else {
        match spec_fields(s, at, (count - 1) as nat) {
            Err(e) => Err(e),
            Ok(before) => match spec_field(s, at + 55 * (count - 1)) {
                Err(e) => Err(e),
                Ok(field) => Ok(before.push(field)),
            },
        }
    }
}

/// The table of `count` descriptors at `at`. A negative count is a corrupt
/// layout; a table that does not fit in the buffer is truncated data,
/// whatever its first descriptors hold.
pub open spec fn spec_field_table(s: Seq<u8>, at: int, count: int) -> Result<
    Seq<FieldView>,
    DecodeError,
> {
    if count < 0 {
        Err(DecodeError::CorruptLayout)
    } else if !available(s, at, 55 * count) {
        Err(DecodeError::UnexpectedEndOfData)
    } else {
        spec_fields(s, at, count as nat)
    }
}

/// The view of the outcome of a descriptor decode.
pub open spec fn field_result(r: Result<LoggerField, DecodeError>) -> Result<
    FieldView,
    DecodeError,
> {
    match r {
        Ok(field) => Ok(field@),
        Err(e) => Err(e),
    }
}

/// The view of the outcome of a table decode.
pub open spec fn fields_result(r: Result<Vec<LoggerField>, DecodeError>) -> Result<
    Seq<FieldView>,
    DecodeError,
> {
    match r {
        Ok(fields) => Ok(field_views(fields@)),
        Err(e) => Err(e),
    }
}

/// A table has as many descriptors as were asked for.
pub proof fn lemma_fields_len(s: Seq<u8>, at: int, count: nat)
    ensures
        spec_fields(s, at, count) is Ok ==> spec_fields(s, at, count)->Ok_0.len() == count,
    decreases count,
{
    if count > 0 {
        lemma_fields_len(s, at, (count - 1) as nat);
    }
}

/// Once a descriptor fails, every longer table fails in the same way.
pub proof fn lemma_fields_error_stays(s: Seq<u8>, at: int, count: nat, more: nat)
    requires
        spec_fields(s, at, count) is Err,
        count <= more,
    ensures
        spec_fields(s, at, more) == spec_fields(s, at, count),
    decreases more,
{
    if count < more {
        lemma_fields_error_stays(s, at, count, (more - 1) as nat);
    }
}

/// Decodes one descriptor at the cursor and moves the cursor past it. On
/// failure the cursor stays where it was.
pub fn decode_field(buff: &[u8], offset: &mut usize) -> (r: Result<LoggerField, DecodeError>)
    ensures
        field_result(r) == spec_field(buff@, *old(offset) as int),
        r is Ok ==> *final(offset) == *old(offset) + 55,
        r is Err ==> *final(offset) == *old(offset),
{
    let mut at: usize = *offset;
    if at > buff.len() || buff.len() - at < LOGGER_FIELD_LENGTH {
        return Err(DecodeError::UnexpectedEndOfData);
    }
    let field_type: i8 = parse_i8(buff, &mut at)?;
    let name: String = parse_string(buff, &mut at, FIELD_NAME_LENGTH)?;
    let units: String = parse_string(buff, &mut at, FIELD_UNITS_LENGTH)?;
    let style_code: i8 = parse_i8(buff, &mut at)?;
    let display_style: DisplayStyle = match DisplayStyle::from_code(style_code) {
        Some(style) => style,
        None => {
            return Err(DecodeError::UnsupportedDisplayStyle);
        },
    };
    let scale_bits: u32 = parse_single(buff, &mut at)?;
    let transform_bits: u32 = parse_single(buff, &mut at)?;
    let digits: i8 = parse_i8(buff, &mut at)?;
    *offset = at;
    Ok(LoggerField { field_type, name, units, display_style, scale_bits, transform_bits, digits })
}

/// Decodes a table of `count` descriptors at the cursor and moves the cursor
/// past it. On failure the cursor stays where it was.
pub fn decode_fields(buff: &[u8], offset: &mut usize, count: i16) -> (r: Result<
    Vec<LoggerField>,
    DecodeError,
>)
    ensures
        fields_result(r) == spec_field_table(buff@, *old(offset) as int, count as int),
        r is Ok ==> r->Ok_0@.len() == count && *final(offset) == *old(offset) + 55 * count,
        r is Err ==> *final(offset) == *old(offset),
{
    if count < 0 {
        return Err(DecodeError::CorruptLayout);
    }
    let start: usize = *offset;
    let wanted: usize = count as usize;
    if start > buff.len() || buff.len() - start < wanted * LOGGER_FIELD_LENGTH {
        return Err(DecodeError::UnexpectedEndOfData);
    }
    let mut at: usize = start;
    let mut fields: Vec<LoggerField> = Vec::new();
    let mut done: usize = 0;
    while done < wanted
        invariant
            done <= wanted,
            wanted == count,
            start == *old(offset),
            start + 55 * wanted <= buff@.len(),
            at == start + 55 * done,
            fields@.len() == done,
            spec_fields(buff@, start as int, done as nat) is Ok,
            spec_fields(buff@, start as int, done as nat)->Ok_0 == field_views(fields@),
        decreases wanted - done,
    {
        match decode_field(buff, &mut at) {
            Ok(field) => {
                fields.push(field);
                done = done + 1;
            },
            Err(e) => {
                proof {
                    lemma_fields_error_stays(
                        buff@,
                        start as int,
                        (done + 1) as nat,
                        wanted as nat,
                    );
                }
                return Err(e);
            },
        }
    }
    *offset = at;
    Ok(fields)
}

} // verus!
