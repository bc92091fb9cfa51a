//! What holds of every buffer, stated over the layout's description.

use vstd::prelude::*;
use crate::blocks::{lemma_blocks_cover, row_width, spec_block, spec_blocks, BlockView};
use crate::cursor::read_text;
use crate::document::{spec_decode, DocumentView};
use crate::error::DecodeError;
use crate::fields::{lemma_fields_len, FieldView};
use crate::header::{format_marker, spec_header};
use crate::json::{is_json_block, is_json_of, text_member, EntryView, MemberView, ValueView};
use crate::tabular::{measurement_count, row_of, row_picker, spec_rows};
use crate::text::text_of;

verus! {

/// A header that decodes declares its sections in order and inside the
/// buffer: the info data starts no later than the blocks, and the blocks
/// start no later than the buffer ends.
pub proof fn law_header_offsets(s: Seq<u8>, at: int)
    requires
        spec_header(s, at) is Ok,
    ensures
        0 <= spec_header(s, at)->Ok_0.info_data_start,
        spec_header(s, at)->Ok_0.info_data_start <= spec_header(s, at)->Ok_0.data_begin_index,
        spec_header(s, at)->Ok_0.data_begin_index <= s.len(),
{
}

/// The header of a document that decodes is the header at the start of the
/// buffer, and so declares its sections in order and inside the buffer.
pub proof fn law_document_offsets(s: Seq<u8>)
    requires
        spec_decode(s) is Ok,
    ensures
        spec_header(s, 0) is Ok,
        spec_header(s, 0)->Ok_0 == spec_decode(s)->Ok_0.header,
        0 <= spec_decode(s)->Ok_0.header.info_data_start,
        spec_decode(s)->Ok_0.header.info_data_start <= spec_decode(s)->Ok_0.header.data_begin_index,
        spec_decode(s)->Ok_0.header.data_begin_index <= s.len(),
{
}

/// A document that decodes is well formed: its header counts the fields of
/// its table, and each of its measurement blocks has a value for every
/// field.
pub proof fn law_decoded_is_well_formed(s: Seq<u8>)
    requires
        spec_decode(s) is Ok,
    ensures
        spec_decode(s)->Ok_0.well_formed(),
{
    let document = spec_decode(s)->Ok_0;
    lemma_fields_len(s, 22, document.header.num_logger_fields as nat);
    lemma_blocks_cover(s, document.header.data_begin_index as int, document.fields);
}

/// The length of the block that starts with the given type byte, where a
/// measurement row is `row` bytes wide.
pub open spec fn block_span(kind: u8, row: nat) -> int {
    if kind == 0 {
        4 + row as int + 1
    } else {
        54
    }
}

/// The number of whole blocks that can be taken one after the other from
/// `at` to the end of the buffer, each as long as its type byte and the
/// width of a measurement row make it.
pub open spec fn consumable_blocks(s: Seq<u8>, at: int, row: nat) -> nat
    decreases s.len() - at,
{
    if at < 0 || at >= s.len() {
        0
    } else if at + block_span(s[at], row) > s.len() {
        0
    } else {
        1 + consumable_blocks(s, at + block_span(s[at], row), row)
    }
}

/// A block stream that decodes has as many blocks as can be taken from the
/// buffer under the widths that the field table declares.
pub proof fn law_block_count(s: Seq<u8>, at: int, fields: Seq<FieldView>)
    requires
        spec_blocks(s, at, fields) is Ok,
    ensures
        spec_blocks(s, at, fields)->Ok_0.len() == consumable_blocks(
            s,
            at,
            row_width(fields).unwrap_or(0),
        ),
    decreases s.len() - at,
{
    if 0 <= at < s.len() {
        let block = spec_block(s, at, fields)->Ok_0;
        law_block_count(s, at + block.size(fields), fields);
    }
}

/// The `dataBlocks` array of the JSON object of a decoded buffer has as many
/// elements as blocks can be taken from the declared start of the blocks to
/// the end of the buffer.
pub proof fn law_json_block_count(s: Seq<u8>, json: Seq<EntryView>)
    requires
        spec_decode(s) is Ok,
        is_json_of(spec_decode(s)->Ok_0, json),
    ensures
        json[10].key == "dataBlocks"@,
        json[10].value is Objects,
        json[10].value->Objects_0.len() == consumable_blocks(
            s,
            spec_decode(s)->Ok_0.header.data_begin_index as int,
            row_width(spec_decode(s)->Ok_0.fields).unwrap_or(0),
        ),
{
    let document = spec_decode(s)->Ok_0;
    law_block_count(s, document.header.data_begin_index as int, document.fields);
}

/// A marker gives no row.
pub proof fn law_marker_gives_no_row(fields: Seq<FieldView>, block: BlockView)
    requires
        block is Marker,
    ensures
        row_of(fields, block) is None,
{
}

/// Among the first `n` blocks, as many give a row as are measurements.
proof fn lemma_rows_of_prefix(blocks: Seq<BlockView>, fields: Seq<FieldView>, n: int)
    requires
        0 <= n <= blocks.len(),
    ensures
        blocks.take(n).filter_map(row_picker(fields)).len() == measurement_count(blocks.take(n)),
    decreases n,
{
    if n == 0 {
    } else {
        let is_row = |block: BlockView| block is Measurement;
        lemma_rows_of_prefix(blocks, fields, n - 1);
        blocks.lemma_filter_map_take_succ(row_picker(fields), n - 1);
        assert(blocks.take(n) =~= blocks.take(n - 1).push(blocks[n - 1]));
        blocks.take(n - 1).lemma_filter_len_push(is_row, blocks[n - 1]);
    }
}

/// The table has as many rows below its header rows as the document has
/// measurement blocks.
pub proof fn law_row_count(document: DocumentView)
    ensures
        spec_rows(document).len() == measurement_count(document.data_blocks),
{
    let blocks = document.data_blocks;
    lemma_rows_of_prefix(blocks, document.fields, blocks.len() as int);
    assert(blocks.take(blocks.len() as int) =~= blocks);
}

/// A field table that needs more bytes than the buffer holds behind the
/// header is truncated data: no shorter table is decoded in its place.
pub proof fn law_truncated_field_table(s: Seq<u8>)
    requires
        spec_header(s, 0) is Ok,
        spec_header(s, 0)->Ok_0.num_logger_fields >= 0,
        22 + 55 * spec_header(s, 0)->Ok_0.num_logger_fields > s.len(),
    ensures
        spec_decode(s) is Err,
        spec_decode(s)->Err_0 == DecodeError::UnexpectedEndOfData,
{
}

/// The message of a marker is the text of its 50-byte slot without the NUL
/// padding, and it is what the marker's JSON object holds under `message`.
pub proof fn law_marker_message(
    s: Seq<u8>,
    at: int,
    fields: Seq<FieldView>,
    members: Seq<MemberView>,
)
    requires
        spec_block(s, at, fields) is Ok,
        spec_block(s, at, fields)->Ok_0 is Marker,
        is_json_block(spec_block(s, at, fields)->Ok_0, members),
    ensures
        text_of(s.subrange(at + 4, at + 54)) is Some,
        members.len() == 3,
        members[2] == text_member("message"@, text_of(s.subrange(at + 4, at + 54))->0),
{
    assert(members.skip(2).len() == 1);
    assert(members.skip(2)[0] == members[2]);
}

/// A buffer whose marker is not the known one is an unsupported format,
/// whatever stands behind the marker and even where nothing does.
pub proof fn law_marker_mismatch(s: Seq<u8>)
    requires
        read_text(s, 0, 6) is Ok,
        read_text(s, 0, 6)->Ok_0 != format_marker(),
    ensures
        spec_decode(s) is Err,
        spec_decode(s)->Err_0 == DecodeError::UnsupportedFormat,
{
}

} // verus!
