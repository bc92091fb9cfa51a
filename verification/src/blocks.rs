//! The stream of data blocks that fills the rest of a file.
//!
//! Every block starts with a block-type byte, a counter byte and a 16-bit
//! timestamp. A measurement block (type 0) goes on with one scalar per
//! logger field, in table order and in each field's own encoding, and one
//! trailing checksum byte that is skipped unread. A marker block (type 1) goes
//! on with a message of 50 bytes.

use vstd::prelude::*;
use crate::cursor::{
    advance, available, be_i8, be_u16, parse_i8, parse_string, parse_u16, read_text,
};
use crate::error::DecodeError;
use crate::fields::{field_views, FieldView, LoggerField};
use crate::model::{FieldType, Sample};
use crate::records::Records;

verus! {

/// Block-type code of a measurement block.
pub const BLOCK_TYPE_FIELD: i8 = 0;

/// Block-type code of a marker block.
pub const BLOCK_TYPE_MARKER: i8 = 1;

/// Length of the prefix that every block starts with.
pub const BLOCK_PREFIX_LENGTH: usize = 4;

/// Length of a marker's message.
pub const MARKER_MESSAGE_LENGTH: usize = 50;

/// The largest number of descriptors that a header can declare.
pub const MAX_FIELDS: usize = 0x7fff;

/// One decoded block.
#[derive(Debug, PartialEq)]
pub enum DataBlock {
    /// One value per logger field.
    Measurement { counter: i8, timestamp: u16, records: Records },
    /// An event annotation.
    Marker { counter: i8, timestamp: u16, message: String },
}

/// A block as a mathematical value.
pub enum BlockView {
    Measurement { counter: i8, timestamp: u16, records: Map<Seq<char>, Sample> },
    Marker { counter: i8, timestamp: u16, message: Seq<char> },
}

impl View for DataBlock {
    type V = BlockView;

    open spec fn view(&self) -> BlockView {
        match self {
            DataBlock::Measurement { counter, timestamp, records } => BlockView::Measurement {
                counter: *counter,
                timestamp: *timestamp,
                records: records@,
            },
            DataBlock::Marker { counter, timestamp, message } => BlockView::Marker {
                counter: *counter,
                timestamp: *timestamp,
                message: message@,
            },
        }
    }
}

impl BlockView {
    /// The block-type code under which the block is stored.
    pub open spec fn block_type(self) -> i8 {
        match self {
            BlockView::Measurement { .. } => 0,
            BlockView::Marker { .. } => 1,
        }
    }

    /// The number of bytes that the block takes in a file with the given
    /// field table.
    pub open spec fn size(self, fields: Seq<FieldView>) -> int {
        match self {
            BlockView::Measurement { .. } => 4 + row_width(fields).unwrap_or(0) as int + 1,
            BlockView::Marker { .. } => 54,
        }
    }
}

impl DataBlock {
    /// The block-type code under which the block is stored.
    pub fn block_type(&self) -> (code: i8)
        ensures
            code == self@.block_type(),
    {
        match self {
            DataBlock::Measurement { .. } => BLOCK_TYPE_FIELD,
            DataBlock::Marker { .. } => BLOCK_TYPE_MARKER,
        }
    }

    /// The counter byte of the block's prefix.
    pub fn counter(&self) -> (value: i8)
        ensures
            value == (match self@ {
                BlockView::Measurement { counter, .. } => counter,
                BlockView::Marker { counter, .. } => counter,
            }),
    {
        match self {
            DataBlock::Measurement { counter, .. } => *counter,
            DataBlock::Marker { counter, .. } => *counter,
        }
    }

    /// The relative timestamp of the block's prefix.
    pub fn timestamp(&self) -> (value: u16)
        ensures
            value == (match self@ {
                BlockView::Measurement { timestamp, .. } => timestamp,
                BlockView::Marker { timestamp, .. } => timestamp,
            }),
    {
        match self {
            DataBlock::Measurement { timestamp, .. } => *timestamp,
            DataBlock::Marker { timestamp, .. } => *timestamp,
        }
    }
}

/// The views of a sequence of blocks.
pub open spec fn block_views(blocks: Seq<DataBlock>) -> Seq<BlockView> {
    blocks.map_values(|b: DataBlock| b@)
}

/// The number of bytes that a scalar with the given type code takes, if the
/// code selects an encoding.
pub open spec fn width_of(code: int) -> Option<nat> {
    match FieldType::of_code(code) {
        Some(kind) => Some(kind.spec_width()),
        None => None,
    }
}

/// The number of bytes that the scalars of one measurement block take
/// together, if every field has a supported type code.
pub open spec fn row_width(fields: Seq<FieldView>) -> Option<nat>
    decreases fields.len(),
{
    if fields.len() == 0 {
        Some(0)
    } else {
        match (row_width(fields.drop_last()), width_of(fields.last().field_type as int)) {
            (Some(before), Some(width)) => Some(before + width),
            _ => None,
        }
    }
}

/// The values of the measurement block whose scalars start at `at`: each
/// field's name mapped to the scalar at the field's place in the row. Where
/// two fields share a name, the later one's value stands.
pub open spec fn spec_records(s: Seq<u8>, at: int, fields: Seq<FieldView>) -> Map<
    Seq<char>,
    Sample,
>
    decreases fields.len(),
{
    if fields.len() == 0 {
        Map::empty()
    } else {
        let before = fields.drop_last();
        let field = fields.last();
        spec_records(s, at, before).insert(
            field.name,
            FieldType::of_code(field.field_type as int).unwrap().sample_at(
                s,
                at + row_width(before).unwrap(),
            ),
        )
    }
}

/// The block that starts at `at`, or the first reason for which there is
/// none.
pub open spec fn spec_block(s: Seq<u8>, at: int, fields: Seq<FieldView>) -> Result<
    BlockView,
    DecodeError,
> {
    if !available(s, at, 4) {
        Err(DecodeError::UnexpectedEndOfData)
    } else if be_i8(s, at) == 0 {
        match row_width(fields) {
            None => Err(DecodeError::UnsupportedFieldType),
            Some(width) => if !available(s, at + 4, width as int + 1) {
                Err(DecodeError::UnexpectedEndOfData)
            } else {
                Ok(
                    BlockView::Measurement {
                        counter: be_i8(s, at + 1) as i8,
                        timestamp: be_u16(s, at + 2) as u16,
                        records: spec_records(s, at + 4, fields),
                    },
                )
            },
        }
    } else if be_i8(s, at) == 1 {
        match read_text(s, at + 4, 50) {
            Err(e) => Err(e),
            Ok(message) => Ok(
                BlockView::Marker {
                    counter: be_i8(s, at + 1) as i8,
                    timestamp: be_u16(s, at + 2) as u16,
                    message,
                },
            ),
        }
    } else {
        Err(DecodeError::UnsupportedBlockType)
    }
}

/// The blocks that fill the buffer from `at` to its end, in file order, or
/// the error of the first block that has one. There is no block count:
/// blocks follow one another until no byte is left.
pub open spec fn spec_blocks(s: Seq<u8>, at: int, fields: Seq<FieldView>) -> Result<
    Seq<BlockView>,
    DecodeError,
>
    decreases s.len() - at,
{
    if at < 0 || at >= s.len() {
        Ok(Seq::empty())
    } else {
        match spec_block(s, at, fields) {
            Err(e) => Err(e),
            Ok(block) => match spec_blocks(s, at + block.size(fields), fields) {
                Err(e) => Err(e),
                Ok(rest) => Ok(seq![block] + rest),
            },
        }
    }
}

/// Whether a block has a value for every field of the table. A marker has
/// no values and wants none.
pub open spec fn covers(block: BlockView, fields: Seq<FieldView>) -> bool {
    block matches BlockView::Measurement { records, .. } ==> forall|i: int|
        0 <= i < fields.len() ==> records.dom().contains(#[trigger] fields[i].name)
}

/// The view of the outcome of a block decode.
pub open spec fn block_result(r: Result<DataBlock, DecodeError>) -> Result<
    BlockView,
    DecodeError,
> {
    match r {
        Ok(block) => Ok(block@),
        Err(e) => Err(e),
    }
}

/// The view of the outcome of a block-stream decode.
pub open spec fn blocks_result(r: Result<Vec<DataBlock>, DecodeError>) -> Result<
    Seq<BlockView>,
    DecodeError,
> {
    match r {
        Ok(blocks) => Ok(block_views(blocks@)),
        Err(e) => Err(e),
    }
}

/// `rest` with `before` put in front of it, where `rest` is a success.
spec fn after_blocks(before: Seq<BlockView>, rest: Result<
    Seq<BlockView>,
    DecodeError,
>) -> Result<Seq<BlockView>, DecodeError> {
    match rest {
        Ok(blocks) => Ok(before + blocks),
        Err(e) => Err(e),
    }
}

/// Where a row has a width, so has each of its prefixes, the width grows
/// with the prefix, and every field has an encoding.
pub proof fn lemma_row_prefix(fields: Seq<FieldView>, n: int)
    requires
        row_width(fields) is Some,
        0 <= n <= fields.len(),
    ensures
        row_width(fields.take(n)) is Some,
        row_width(fields.take(n))->0 <= row_width(fields)->0,
        n < fields.len() ==> width_of(fields[n].field_type as int) is Some && row_width(
            fields.take(n + 1),
        ) == Some(
            row_width(fields.take(n))->0 + width_of(fields[n].field_type as int)->0,
        ),
    decreases fields.len(),
{
    if n == fields.len() {
        assert(fields.take(n) =~= fields);
    } else {
        let before = fields.drop_last();
        assert(fields.take(n) =~= before.take(n));
        lemma_row_prefix(before, n);
        if n + 1 == fields.len() {
            assert(fields.take(n + 1) =~= fields);
        } else {
            assert(fields.take(n + 1) =~= before.take(n + 1));
        }
    }
}

/// The records of a measurement block have a value under every field name.
pub proof fn lemma_records_cover(s: Seq<u8>, at: int, fields: Seq<FieldView>)
    ensures
        forall|i: int|
            0 <= i < fields.len() ==> spec_records(s, at, fields).dom().contains(
                #[trigger] fields[i].name,
            ),
    decreases fields.len(),
{
    if fields.len() > 0 {
        lemma_records_cover(s, at, fields.drop_last());
        assert forall|i: int| 0 <= i < fields.len() implies spec_records(
            s,
            at,
            fields,
        ).dom().contains(#[trigger] fields[i].name) by {
            if i < fields.len() - 1 {
                assert(fields.drop_last()[i] == fields[i]);
            }
        }
    }
}

/// A decoded block has a value for every field of the table.
pub proof fn lemma_block_covers(s: Seq<u8>, at: int, fields: Seq<FieldView>)
    ensures
        spec_block(s, at, fields) is Ok ==> covers(spec_block(s, at, fields)->Ok_0, fields),
{
    lemma_records_cover(s, at + 4, fields);
}

/// Every block of a decoded stream has a value for every field of the
/// table.
pub proof fn lemma_blocks_cover(s: Seq<u8>, at: int, fields: Seq<FieldView>)
    requires
        spec_blocks(s, at, fields) is Ok,
    ensures
        forall|i: int|
            0 <= i < spec_blocks(s, at, fields)->Ok_0.len() ==> covers(
                #[trigger] spec_blocks(s, at, fields)->Ok_0[i],
                fields,
            ),
    decreases s.len() - at,
{
    if 0 <= at < s.len() {
        let block = spec_block(s, at, fields)->Ok_0;
        lemma_block_covers(s, at, fields);
        lemma_blocks_cover(s, at + block.size(fields), fields);
    }
}

/// The number of bytes that the scalars of one measurement block take
/// together, or nothing where a field has an unsupported type code.
pub fn measure_row(fields: &Vec<LoggerField>) -> (width: Option<usize>)
    requires
        fields@.len() <= MAX_FIELDS,
    ensures
        width is Some <==> row_width(field_views(fields@)) is Some,
        width is Some ==> width->0 == row_width(field_views(fields@))->0,
{
    let ghost views = field_views(fields@);
    let mut total: usize = 0;
    let mut done: usize = 0;
    while done < fields.len()
        invariant
            done <= fields@.len(),
            fields@.len() <= MAX_FIELDS,
            views == field_views(fields@),
            row_width(views.take(done as int)) == Some(total as nat),
            total <= 8 * done,
        decreases fields@.len() - done,
    {
        proof {
            assert(views.take(done + 1).drop_last() =~= views.take(done as int));
        }
        match FieldType::from_code(fields[done].field_type) {
            None => {
                proof {
                    if row_width(views) is Some {
                        lemma_row_prefix(views, done as int);
                    }
                }
                return None;
            },
            Some(kind) => {
                total = total + kind.width();
            },
        }
        done = done + 1;
    }
    assert(views.take(done as int) =~= views);
    Some(total)
}

/// Reads the scalars of one measurement block at the cursor. Where the row
/// has a width and fits in the buffer, no read fails.
fn decode_records(buff: &[u8], offset: &mut usize, fields: &Vec<LoggerField>) -> (r: Result<
    Records,
    DecodeError,
>)
    requires
        row_width(field_views(fields@)) is Some,
        available(
            buff@,
            *old(offset) as int,
            row_width(field_views(fields@))->0 as int,
        ),
    ensures
        r is Ok,
        r->Ok_0@ == spec_records(buff@, *old(offset) as int, field_views(fields@)),
        *final(offset) == *old(offset) + row_width(field_views(fields@))->0,
{
    let ghost views = field_views(fields@);
    let ghost start = *offset as int;
    let mut records: Records = Records::empty();
    let mut done: usize = 0;
    while done < fields.len()
        invariant
            done <= fields@.len(),
            views == field_views(fields@),
            row_width(views) is Some,
            available(buff@, start, row_width(views)->0 as int),
            row_width(views.take(done as int)) is Some,
            *offset == start + row_width(views.take(done as int))->0,
            records@ == spec_records(buff@, start, views.take(done as int)),
        decreases fields@.len() - done,
    {
        proof {
            lemma_row_prefix(views, done as int);
            lemma_row_prefix(views, done + 1);
            assert(views.take(done + 1).drop_last() =~= views.take(done as int));
        }
        let field: &LoggerField = &fields[done];
        let kind: FieldType = match FieldType::from_code(field.field_type) {
            Some(kind) => kind,
            None => {
                return Err(DecodeError::UnsupportedFieldType);
            },
        };
        let value: Sample = kind.read(buff, offset)?;
        records.put(field.name.clone(), value);
        done = done + 1;
    }
    assert(views.take(done as int) =~= views);
    Ok(records)
}

/// Decodes one block, given the width of a measurement row.
fn decode_block_of(
    buff: &[u8],
    offset: &mut usize,
    fields: &Vec<LoggerField>,
    width: Option<usize>,
) -> (r: Result<DataBlock, DecodeError>)
    requires
        width is Some <==> row_width(field_views(fields@)) is Some,
        width is Some ==> width->0 == row_width(field_views(fields@))->0,
    ensures
        block_result(r) == spec_block(buff@, *old(offset) as int, field_views(fields@)),
        r is Ok ==> *final(offset) == *old(offset) + r->Ok_0@.size(field_views(fields@)),
        r is Ok ==> *final(offset) <= buff@.len(),
        r is Err ==> *final(offset) == *old(offset),
{
    let mut at: usize = *offset;
    if at > buff.len() || buff.len() - at < BLOCK_PREFIX_LENGTH {
        return Err(DecodeError::UnexpectedEndOfData);
    }
    let block_type: i8 = parse_i8(buff, &mut at)?;
    let counter: i8 = parse_i8(buff, &mut at)?;
    let timestamp: u16 = parse_u16(buff, &mut at)?;
    if block_type == BLOCK_TYPE_FIELD {
        let row: usize = match width {
            Some(row) => row,
            None => {
                return Err(DecodeError::UnsupportedFieldType);
            },
        };
        if buff.len() - at <= row {
            return Err(DecodeError::UnexpectedEndOfData);
        }
        let records: Records = decode_records(buff, &mut at, fields)?;
        advance(buff, &mut at, 1)?;
        *offset = at;
        Ok(DataBlock::Measurement { counter, timestamp, records })
    } else if block_type == BLOCK_TYPE_MARKER {
        let message: String = parse_string(buff, &mut at, MARKER_MESSAGE_LENGTH)?;
        *offset = at;
        Ok(DataBlock::Marker { counter, timestamp, message })
    } else {
        Err(DecodeError::UnsupportedBlockType)
    }
}

/// Decodes the block at the cursor and moves the cursor past it. On failure
/// the cursor stays where it was.
pub fn decode_block(buff: &[u8], offset: &mut usize, fields: &Vec<LoggerField>) -> (r: Result<
    DataBlock,
    DecodeError,
>)
    requires
        fields@.len() <= MAX_FIELDS,
    ensures
        block_result(r) == spec_block(buff@, *old(offset) as int, field_views(fields@)),
        r is Ok ==> *final(offset) == *old(offset) + r->Ok_0@.size(field_views(fields@)),
        r is Err ==> *final(offset) == *old(offset),
{
    let width: Option<usize> = measure_row(fields);
    decode_block_of(buff, offset, fields, width)
}

/// Decodes blocks from the cursor to the end of the buffer and leaves the
/// cursor there. On failure the cursor stays where it was.
pub fn decode_blocks(buff: &[u8], offset: &mut usize, fields: &Vec<LoggerField>) -> (r: Result<
    Vec<DataBlock>,
    DecodeError,
>)
    requires
        fields@.len() <= MAX_FIELDS,
    ensures
        blocks_result(r) == spec_blocks(buff@, *old(offset) as int, field_views(fields@)),
        r is Ok && *old(offset) <= buff@.len() ==> *final(offset) == buff@.len(),
        r is Ok && *old(offset) > buff@.len() ==> *final(offset) == *old(offset),
        r is Err ==> *final(offset) == *old(offset),
        r is Ok ==> forall|i: int|
            0 <= i < r->Ok_0@.len() ==> covers(#[trigger] r->Ok_0@[i]@, field_views(fields@)),
{
    let ghost views = field_views(fields@);
    let ghost start = *offset as int;
    let width: Option<usize> = measure_row(fields);
    let mut at: usize = *offset;
    let mut blocks: Vec<DataBlock> = Vec::new();
    assert(Seq::<BlockView>::empty() + spec_blocks(buff@, start, views)->Ok_0 =~= spec_blocks(
        buff@,
        start,
        views,
    )->Ok_0);
    while at < buff.len()
        invariant
            views == field_views(fields@),
            start == *old(offset),
            *offset == *old(offset),
            width is Some <==> row_width(views) is Some,
            width is Some ==> width->0 == row_width(views)->0,
            at == start || at <= buff@.len(),
            at >= start,
            forall|i: int| 0 <= i < blocks@.len() ==> covers(#[trigger] blocks@[i]@, views),
            after_blocks(block_views(blocks@), spec_blocks(buff@, at as int, views)) == spec_blocks(
                buff@,
                start,
                views,
            ),
        decreases buff@.len() - at,
    {
        let ghost before = block_views(blocks@);
        let ghost here = at as int;
        match decode_block_of(buff, &mut at, fields, width) {
            Err(e) => {
                return Err(e);
            },
            Ok(block) => {
                proof {
                    lemma_block_covers(buff@, here, views);
                    let rest = spec_blocks(buff@, at as int, views);
                    assert(block_views(blocks@.push(block)) =~= before.push(block@));
                    if rest is Ok {
                        assert(before.push(block@) + rest->Ok_0 =~= before + (seq![block@]
                            + rest->Ok_0));
                    }
                }
                blocks.push(block);
            },
        }
    }
    *offset = at;
    Ok(blocks)
}

} // verus!
