//! A whole file, decoded.

use vstd::prelude::*;
use crate::blocks::{
    block_views, covers, decode_blocks, spec_blocks, BlockView, DataBlock, MAX_FIELDS,
};
use crate::cursor::{jump, parse_string, read_text};
use crate::error::DecodeError;
use crate::fields::{decode_fields, field_views, spec_field_table, FieldView, LoggerField};
use crate::header::{decode_header, format_marker, spec_header, FileHeader, HeaderView};

verus! {

/// The decoded content of one file: the header, the field table, the two
/// text regions and the blocks in file order.
///
/// A document comes out of [`decode`] and is not changed afterwards. Every
/// measurement block of a document has a value for every field of its
/// table.
#[derive(Debug, PartialEq)]
pub struct Document {
    pub(crate) header: FileHeader,
    pub(crate) fields: Vec<LoggerField>,
    pub(crate) bit_field_names: String,
    pub(crate) info_data: String,
    pub(crate) data_blocks: Vec<DataBlock>,
}

/// A document as a mathematical value.
pub struct DocumentView {
    pub header: HeaderView,
    pub fields: Seq<FieldView>,
    pub bit_field_names: Seq<char>,
    pub info_data: Seq<char>,
    pub data_blocks: Seq<BlockView>,
}

impl DocumentView {
    /// What holds of every decoded document: the header carries the known
    /// marker and version, declares its sections in order and counts the
    /// fields of the table, and every measurement block has a value for
    /// every field.
    pub open spec fn well_formed(self) -> bool {
        &&& self.header.file_format == format_marker()
        &&& self.header.format_version == 1
        &&& 0 <= self.header.info_data_start
        &&& self.header.info_data_start <= self.header.data_begin_index
        &&& self.header.num_logger_fields == self.fields.len()
        &&& forall|i: int|
            0 <= i < self.data_blocks.len() ==> covers(#[trigger] self.data_blocks[i], self.fields)
    }
}

impl View for Document {
    type V = DocumentView;

    closed spec fn view(&self) -> DocumentView {
        DocumentView {
            header: self.header@,
            fields: field_views(self.fields@),
            bit_field_names: self.bit_field_names@,
            info_data: self.info_data@,
            data_blocks: block_views(self.data_blocks@),
        }
    }
}

/// The document that a buffer holds, or the first reason for which it holds
/// none: the header at offset 0, the field table behind it, the bit-field
/// names up to the declared start of the info data, the info data up to the
/// declared start of the blocks, and blocks from there to the end.
pub open spec fn spec_decode(s: Seq<u8>) -> Result<DocumentView, DecodeError> {
    match spec_header(s, 0) {
        Err(e) => Err(e),
        Ok(header) => match spec_field_table(s, 22, header.num_logger_fields as int) {
            Err(e) => Err(e),
            Ok(fields) => {
                let table_end = 22 + 55 * header.num_logger_fields;
                if header.info_data_start < table_end {
                    Err(DecodeError::CorruptLayout)
                } else {
                    match read_text(s, table_end, header.info_data_start - table_end) {
                        Err(e) => Err(e),
                        Ok(bit_field_names) => match read_text(
                            s,
                            header.info_data_start as int,
                            header.data_begin_index - header.info_data_start,
                        ) {
                            Err(e) => Err(e),
                            Ok(info_data) => match spec_blocks(
                                s,
                                header.data_begin_index as int,
                                fields,
                            ) {
                                Err(e) => Err(e),
                                Ok(data_blocks) => Ok(
                                    DocumentView {
                                        header,
                                        fields,
                                        bit_field_names,
                                        info_data,
                                        data_blocks,
                                    },
                                ),
                            },
                        },
                    }
                }
            },
        }
    }
}

/// The view of the outcome of a decode.
pub open spec fn document_result(r: Result<Document, DecodeError>) -> Result<
    DocumentView,
    DecodeError,
> {
    match r {
        Ok(document) => Ok(document@),
        Err(e) => Err(e),
    }
}

impl Document {
    #[verifier::type_invariant]
    pub closed spec fn holds_together(self) -> bool {
        self@.well_formed()
    }

    /// The header scalars.
    pub fn header(&self) -> (header: &FileHeader)
        ensures
            header@ == self@.header,
            self@.well_formed(),
    {
        proof {
            use_type_invariant(self);
        }
        &self.header
    }

    /// The field table, in file order.
    pub fn fields(&self) -> (fields: &Vec<LoggerField>)
        ensures
            field_views(fields@) == self@.fields,
            fields@.len() <= MAX_FIELDS,
            self@.well_formed(),
    {
        proof {
            use_type_invariant(self);
        }
        &self.fields
    }

    /// The text between the field table and the info data.
    pub fn bit_field_names(&self) -> (text: &String)
        ensures
            text@ == self@.bit_field_names,
    {
        &self.bit_field_names
    }

    /// The info-data text.
    pub fn info_data(&self) -> (text: &String)
        ensures
            text@ == self@.info_data,
    {
        &self.info_data
    }

    /// The blocks, in file order.
    pub fn data_blocks(&self) -> (blocks: &Vec<DataBlock>)
        ensures
            block_views(blocks@) == self@.data_blocks,
            self@.well_formed(),
    {
        proof {
            use_type_invariant(self);
        }
        &self.data_blocks
    }
}

/// Decodes a whole file. The buffer either decodes in full or is rejected
/// with the first error met in reading order.
pub fn decode(buff: &[u8]) -> (r: Result<Document, DecodeError>)
    ensures
        document_result(r) == spec_decode(buff@),
        r is Ok ==> r->Ok_0@.well_formed(),
{
    let mut offset: usize = 0;
    let header: FileHeader = decode_header(buff, &mut offset)?;
    let fields: Vec<LoggerField> = decode_fields(buff, &mut offset, header.num_logger_fields)?;
    let info_start: usize = header.info_data_start as usize;
    let data_begin: usize = header.data_begin_index as usize;
    if info_start < offset {
        return Err(DecodeError::CorruptLayout);
    }
    let names_length: usize = info_start - offset;
    let bit_field_names: String = parse_string(buff, &mut offset, names_length)?;
    jump(buff, &mut offset, info_start)?;
    let info_data: String = parse_string(buff, &mut offset, data_begin - info_start)?;
    jump(buff, &mut offset, data_begin)?;
    let data_blocks: Vec<DataBlock> = decode_blocks(buff, &mut offset, &fields)?;
    Ok(Document { header, fields, bit_field_names, info_data, data_blocks })
}

} // verus!
