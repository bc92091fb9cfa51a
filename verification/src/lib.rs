//! Decoder for MLG telemetry logs.
//!
//! An MLG file is a fixed header, a table of logger-field descriptors, two
//! text regions and a stream of data blocks. This crate turns the bytes of
//! such a file into a [`Document`] and projects a document into the rows of
//! a table or the members of a JSON object. Every function is verified
//! against a mathematical description of the byte layout.

pub mod blocks;
pub mod cursor;
pub mod document;
pub mod error;
pub mod fields;
pub mod header;
pub mod json;
pub mod laws;
pub mod model;
pub mod records;
pub mod tabular;
pub mod text;

pub use blocks::{decode_block, decode_blocks, measure_row, DataBlock};
pub use cursor::{
    advance, jump, parse_i16, parse_i32, parse_i64, parse_i8, parse_single, parse_string,
    parse_u16, parse_u32, parse_u64, parse_u8,
};
pub use document::{decode, Document};
pub use error::DecodeError;
pub use fields::{decode_field, decode_fields, LoggerField};
pub use header::{decode_header, FileHeader};
pub use json::{
    block_members, block_type_name, field_members, JsonEntry, JsonMember, JsonScalar, JsonValue,
};
pub use model::{DisplayStyle, FieldType, Formats, Sample};
pub use records::Records;
pub use tabular::{cell_format, Cell, CellFormat};
