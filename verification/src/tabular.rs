//! The table that a document is written out as.
//!
//! The table has one column per logger field, in table order, and one row
//! per measurement block, in file order. Markers have no per-field values
//! and give no row. A cell carries what its text is computed from: the raw
//! value, the field's calibration constants and the rule by which the
//! display value `(raw + transform) * scale` is written.

use vstd::prelude::*;
use crate::blocks::{block_views, BlockView, DataBlock};
use crate::document::{Document, DocumentView};
use crate::fields::{field_views, FieldView, LoggerField};
use crate::model::{DisplayStyle, Sample};
use crate::records::Records;

verus! {

/// How the display value of a cell is written.
#[derive(Clone, Copy, Debug, PartialEq, Eq, Structural)]
pub enum CellFormat {
    /// With exactly this many decimal places.
    Fixed(i8),
    /// As the default decimal text of the number.
    Plain,
}

/// One cell of a measurement row.
#[derive(Clone, Copy, Debug, PartialEq, Eq, Structural)]
pub struct Cell {
    /// The raw decoded value.
    pub value: Sample,
    /// Bit pattern of the single that is added to the raw value.
    pub transform_bits: u32,
    /// Bit pattern of the single by which the sum is multiplied.
    pub scale_bits: u32,
    /// How the product is written.
    pub format: CellFormat,
}

/// The rule by which a field's display values are written: a fixed number
/// of decimal places for the `Float` style, the plain number for every
/// other style.
pub open spec fn format_of(field: FieldView) -> CellFormat {
    if field.display_style == DisplayStyle::Float {
        CellFormat::Fixed(field.digits)
    } else {
        CellFormat::Plain
    }
}

/// The cell of `field` in the row of a block with the given records.
pub open spec fn spec_cell(field: FieldView, records: Map<Seq<char>, Sample>) -> Cell {
    Cell {
        value: records[field.name],
        transform_bits: field.transform_bits,
        scale_bits: field.scale_bits,
        format: format_of(field),
    }
}

/// The row of a block with the given records: one cell per field, in table
/// order.
pub open spec fn spec_row(fields: Seq<FieldView>, records: Map<Seq<char>, Sample>) -> Seq<Cell> {
    Seq::new(fields.len(), |i: int| spec_cell(fields[i], records))
}

/// The row that a block gives, if it gives one.
pub open spec fn row_of(fields: Seq<FieldView>, block: BlockView) -> Option<Seq<Cell>> {
    match block {
        BlockView::Measurement { records, .. } => Some(spec_row(fields, records)),
        BlockView::Marker { .. } => None,
    }
}

/// `row_of` for a fixed field table.
pub open spec fn row_picker(fields: Seq<FieldView>) -> spec_fn(BlockView) -> Option<Seq<Cell>> {
    |block: BlockView| row_of(fields, block)
}

/// The rows of a document: the rows of its measurement blocks, in file
/// order.
pub open spec fn spec_rows(document: DocumentView) -> Seq<Seq<Cell>> {
    document.data_blocks.filter_map(row_picker(document.fields))
}

/// The first header row: the field names, in table order.
pub open spec fn spec_names(fields: Seq<FieldView>) -> Seq<Seq<char>> {
    Seq::new(fields.len(), |i: int| fields[i].name)
}

/// The second header row: the field units, in table order.
pub open spec fn spec_units(fields: Seq<FieldView>) -> Seq<Seq<char>> {
    Seq::new(fields.len(), |i: int| fields[i].units)
}

/// The number of measurement blocks among `blocks`.
pub open spec fn measurement_count(blocks: Seq<BlockView>) -> nat {
    blocks.filter(|block: BlockView| block is Measurement).len()
}

/// The views of a sequence of strings.
pub open spec fn text_views(texts: Seq<String>) -> Seq<Seq<char>> {
    texts.map_values(|text: String| text@)
}

/// The views of a sequence of rows.
pub open spec fn row_views(rows: Seq<Vec<Cell>>) -> Seq<Seq<Cell>> {
    rows.map_values(|row: Vec<Cell>| row@)
}

/// The rule by which a field's display values are written.
pub fn cell_format(field: &LoggerField) -> (format: CellFormat)
    ensures
        format == format_of(field@),
{
    match field.display_style {
        DisplayStyle::Float => CellFormat::Fixed(field.digits),
        _ => CellFormat::Plain,
    }
}

/// The row of a block with the given records.
fn row_cells(fields: &Vec<LoggerField>, records: &Records) -> (row: Vec<Cell>)
    requires
        forall|i: int| 0 <= i < fields@.len() ==> records@.dom().contains(#[trigger] fields@[i]@.name),
    ensures
        row@ == spec_row(field_views(fields@), records@),
{
    let mut row: Vec<Cell> = Vec::new();
    let mut done: usize = 0;
    while done < fields.len()
        invariant
            done <= fields@.len(),
            row@.len() == done,
            forall|i: int|
                0 <= i < fields@.len() ==> records@.dom().contains(#[trigger] fields@[i]@.name),
            forall|i: int| 0 <= i < done ==> #[trigger] row@[i] == spec_cell(fields@[i]@, records@),
        decreases fields@.len() - done,
    {
        let field: &LoggerField = &fields[done];
        assert(records@.dom().contains(fields@[done as int]@.name));
        if let Some(value) = records.get(field.name.as_str()) {
            row.push(
                Cell {
                    value,
                    transform_bits: field.transform_bits,
                    scale_bits: field.scale_bits,
                    format: cell_format(field),
                },
            );
        }
        done = done + 1;
    }
    row
}

impl Document {
    /// The first header row of the table: the field names.
    pub fn column_names(&self) -> (names: Vec<String>)
        ensures
            text_views(names@) == spec_names(self@.fields),
    {
        let fields: &Vec<LoggerField> = self.fields();
        let mut names: Vec<String> = Vec::new();
        let mut done: usize = 0;
        while done < fields.len()
            invariant
                done <= fields@.len(),
                names@.len() == done,
                forall|i: int| 0 <= i < done ==> (#[trigger] names@[i])@ == fields@[i]@.name,
            decreases fields@.len() - done,
        {
            names.push(fields[done].name.clone());
            done = done + 1;
        }
        names
    }

    /// The second header row of the table: the field units.
    pub fn column_units(&self) -> (units: Vec<String>)
        ensures
            text_views(units@) == spec_units(self@.fields),
    {
        let fields: &Vec<LoggerField> = self.fields();
        let mut units: Vec<String> = Vec::new();
        let mut done: usize = 0;
        while done < fields.len()
            invariant
                done <= fields@.len(),
                units@.len() == done,
                forall|i: int| 0 <= i < done ==> (#[trigger] units@[i])@ == fields@[i]@.units,
            decreases fields@.len() - done,
        {
            units.push(fields[done].units.clone());
            done = done + 1;
        }
        units
    }

    /// The rows of the table below its two header rows: one per measurement
    /// block, in file order, and none for a marker.
    pub fn table_rows(&self) -> (rows: Vec<Vec<Cell>>)
        ensures
            row_views(rows@) == spec_rows(self@),
            rows@.len() == measurement_count(self@.data_blocks),
    {
        let fields: &Vec<LoggerField> = self.fields();
        let blocks: &Vec<DataBlock> = self.data_blocks();
        let ghost views = block_views(blocks@);
        let ghost pick = row_picker(field_views(fields@));
        let ghost is_row = |block: BlockView| block is Measurement;
        let mut rows: Vec<Vec<Cell>> = Vec::new();
        let mut done: usize = 0;
        while done < blocks.len()
            invariant
                done <= blocks@.len(),
                views == block_views(blocks@),
                views == self@.data_blocks,
                field_views(fields@) == self@.fields,
                self@.well_formed(),
                pick == row_picker(field_views(fields@)),
                is_row == (|block: BlockView| block is Measurement),
                row_views(rows@) == views.take(done as int).filter_map(pick),
                rows@.len() == views.take(done as int).filter(is_row).len(),
            decreases blocks@.len() - done,
        {
            proof {
                views.lemma_filter_map_take_succ(pick, done as int);
                assert(views.take(done + 1) =~= views.take(done as int).push(views[done as int]));
                views.take(done as int).lemma_filter_len_push(is_row, views[done as int]);
            }
            match &blocks[done] {
                DataBlock::Measurement { records, .. } => {
                    assert forall|i: int| 0 <= i < fields@.len() implies records@.dom().contains(
                        #[trigger] fields@[i]@.name,
                    ) by {
                        assert(field_views(fields@)[i].name == fields@[i]@.name);
                    }
                    let row: Vec<Cell> = row_cells(fields, records);
                    rows.push(row);
                },
                DataBlock::Marker { .. } => {},
            }
            done = done + 1;
        }
        assert(views.take(done as int) =~= views);
        rows
    }
}

} // verus!
