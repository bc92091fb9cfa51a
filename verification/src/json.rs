//! The JSON document that a document is written out as.
//!
//! The projection is a tree of two levels: an object whose members are
//! scalars or arrays of objects with scalar members. Names are in lower
//! camel case. Values are the raw decoded ones: calibration is not applied
//! here, and a style is written by its name.

use vstd::prelude::*;
use crate::blocks::{block_views, BlockView, DataBlock};
use crate::document::{Document, DocumentView};
use crate::fields::{field_views, FieldView, LoggerField};
use crate::header::{FileHeader, HeaderView};
use crate::model::Sample;

verus! {

/// A JSON value without members of its own.
#[derive(Clone, Debug, PartialEq, Eq)]
pub enum JsonScalar {
    /// An integer, written as such.
    Integer(i64),
    /// An IEEE 754 single, given by its bit pattern.
    Single(u32),
    /// A decoded sample, written as a double.
    Double(Sample),
    /// A string.
    Text(String),
}

/// A member of a JSON object: a name and a scalar.
#[derive(Clone, Debug, PartialEq, Eq)]
pub struct JsonMember {
    pub key: String,
    pub value: JsonScalar,
}

/// What a member of the top-level object holds.
#[derive(Clone, Debug, PartialEq, Eq)]
pub enum JsonValue {
    Scalar(JsonScalar),
    /// An array of objects, each an ordered list of members.
    Objects(Vec<Vec<JsonMember>>),
}

/// A member of the top-level object.
#[derive(Clone, Debug, PartialEq, Eq)]
pub struct JsonEntry {
    pub key: String,
    pub value: JsonValue,
}

/// A scalar as a mathematical value.
pub enum ScalarView {
    Integer(i64),
    Single(u32),
    Double(Sample),
    Text(Seq<char>),
}

/// A member as a mathematical value.
pub struct MemberView {
    pub key: Seq<char>,
    pub value: ScalarView,
}

/// A top-level value as a mathematical value.
pub enum ValueView {
    Scalar(ScalarView),
    Objects(Seq<Seq<MemberView>>),
}

/// A top-level member as a mathematical value.
pub struct EntryView {
    pub key: Seq<char>,
    pub value: ValueView,
}

impl View for JsonScalar {
    type V = ScalarView;

    open spec fn view(&self) -> ScalarView {
        match self {
            JsonScalar::Integer(value) => ScalarView::Integer(*value),
            JsonScalar::Single(bits) => ScalarView::Single(*bits),
            JsonScalar::Double(sample) => ScalarView::Double(*sample),
            JsonScalar::Text(text) => ScalarView::Text(text@),
        }
    }
}

impl View for JsonMember {
    type V = MemberView;

    open spec fn view(&self) -> MemberView {
        MemberView { key: self.key@, value: self.value@ }
    }
}

/// The views of the members of an object.
pub open spec fn member_views(members: Seq<JsonMember>) -> Seq<MemberView> {
    members.map_values(|m: JsonMember| m@)
}

/// The views of the objects of an array.
pub open spec fn object_views(objects: Seq<Vec<JsonMember>>) -> Seq<Seq<MemberView>> {
    objects.map_values(|o: Vec<JsonMember>| member_views(o@))
}

impl View for JsonValue {
    type V = ValueView;

    open spec fn view(&self) -> ValueView {
        match self {
            JsonValue::Scalar(scalar) => ValueView::Scalar(scalar@),
            JsonValue::Objects(objects) => ValueView::Objects(object_views(objects@)),
        }
    }
}

impl View for JsonEntry {
    type V = EntryView;

    open spec fn view(&self) -> EntryView {
        EntryView { key: self.key@, value: self.value@ }
    }
}

/// The views of the members of the top-level object.
pub open spec fn entry_views(entries: Seq<JsonEntry>) -> Seq<EntryView> {
    entries.map_values(|e: JsonEntry| e@)
}

/// A member with an integer value.
pub open spec fn integer_member(key: Seq<char>, value: int) -> MemberView {
    MemberView { key, value: ScalarView::Integer(value as i64) }
}

/// A member with a string value.
pub open spec fn text_member(key: Seq<char>, text: Seq<char>) -> MemberView {
    MemberView { key, value: ScalarView::Text(text) }
}

/// A member with a single-precision value.
pub open spec fn single_member(key: Seq<char>, bits: u32) -> MemberView {
    MemberView { key, value: ScalarView::Single(bits) }
}

/// A top-level member with an integer value.
pub open spec fn integer_entry(key: Seq<char>, value: int) -> EntryView {
    EntryView { key, value: ValueView::Scalar(ScalarView::Integer(value as i64)) }
}

/// A top-level member with a string value.
pub open spec fn text_entry(key: Seq<char>, text: Seq<char>) -> EntryView {
    EntryView { key, value: ValueView::Scalar(ScalarView::Text(text)) }
}

/// A top-level member with an array of objects.
pub open spec fn objects_entry(key: Seq<char>, objects: Seq<Seq<MemberView>>) -> EntryView {
    EntryView { key, value: ValueView::Objects(objects) }
}

/// The type string of a block.
pub open spec fn kind_name(block: BlockView) -> Seq<char> {
    match block {
        BlockView::Measurement { .. } => "field"@,
        BlockView::Marker { .. } => "marker"@,
    }
}

/// The object of a field descriptor.
pub open spec fn json_field(field: FieldView) -> Seq<MemberView> {
    seq![
        integer_member("fieldType"@, field.field_type as int),
        text_member("name"@, field.name),
        text_member("units"@, field.units),
        text_member("displayStyle"@, field.display_style.spec_name()),
        single_member("scale"@, field.scale_bits),
        single_member("transform"@, field.transform_bits),
        integer_member("digits"@, field.digits as int),
    ]
}

/// The array of the field descriptors' objects.
pub open spec fn json_fields(fields: Seq<FieldView>) -> Seq<Seq<MemberView>> {
    Seq::new(fields.len(), |i: int| json_field(fields[i]))
}

/// The two members that every block's object starts with.
pub open spec fn json_block_head(block: BlockView) -> Seq<MemberView> {
    match block {
        BlockView::Measurement { timestamp, .. } => seq![
            integer_member("timestamp"@, timestamp as int),
            text_member("type"@, kind_name(block)),
        ],
        BlockView::Marker { timestamp, .. } => seq![
            integer_member("timestamp"@, timestamp as int),
            text_member("type"@, kind_name(block)),
        ],
    }
}

/// Whether `members` lists the entries of `records`: each entry once, as a
/// double under its name, in whatever order.
pub open spec fn lists_records(records: Map<Seq<char>, Sample>, members: Seq<MemberView>) -> bool {
    &&& forall|i: int|
        0 <= i < members.len() ==> records.dom().contains((#[trigger] members[i]).key)
            && members[i].value == ScalarView::Double(records[members[i].key])
    &&& forall|name: Seq<char>|
        records.dom().contains(name) ==> exists|i: int|
            0 <= i < members.len() && (#[trigger] members[i]).key == name
    &&& forall|i: int, j: int|
        0 <= i < j < members.len() ==> (#[trigger] members[i]).key != (#[trigger] members[j]).key
}

/// Whether `members` is an object of `block`: the timestamp and the type
/// string first, then the message of a marker, or the raw values of a
/// measurement under their field names.
pub open spec fn is_json_block(block: BlockView, members: Seq<MemberView>) -> bool {
    &&& members.len() >= 2
    &&& members.take(2) == json_block_head(block)
    &&& match block {
        BlockView::Measurement { records, .. } => lists_records(records, members.skip(2)),
        BlockView::Marker { message, .. } => members.skip(2) == seq![
            text_member("message"@, message),
        ],
    }
}

/// Whether `objects` holds an object of each block, in file order.
pub open spec fn is_json_blocks(blocks: Seq<BlockView>, objects: Seq<Seq<MemberView>>) -> bool {
    &&& objects.len() == blocks.len()
    &&& forall|i: int| 0 <= i < blocks.len() ==> is_json_block(blocks[i], #[trigger] objects[i])
}

/// The members that the top-level object starts with: the header scalars.
pub open spec fn json_head(header: HeaderView) -> Seq<EntryView> {
    seq![
        text_entry("fileFormat"@, header.file_format),
        integer_entry("formatVersion"@, header.format_version as int),
        integer_entry("timestamp"@, header.timestamp as int),
        integer_entry("infoDataStart"@, header.info_data_start as int),
        integer_entry("dataBeginIndex"@, header.data_begin_index as int),
        integer_entry("recordLength"@, header.record_length as int),
        integer_entry("numLoggerFields"@, header.num_logger_fields as int),
    ]
}

/// Whether `json` is the top-level object of `document`: the header
/// scalars, the field descriptors, the two texts and the blocks.
pub open spec fn is_json_of(document: DocumentView, json: Seq<EntryView>) -> bool {
    &&& json.len() == 11
    &&& json.take(7) == json_head(document.header)
    &&& json[7] == objects_entry("fields"@, json_fields(document.fields))
    &&& json[8] == text_entry("bitFieldNames"@, document.bit_field_names)
    &&& json[9] == text_entry("infoData"@, document.info_data)
    &&& json[10].key == "dataBlocks"@
    &&& json[10].value matches ValueView::Objects(objects)
    &&& is_json_blocks(document.data_blocks, objects)
}

/// A member with an integer value.
fn integer(key: &str, value: i64) -> (member: JsonMember)
    ensures
        member@ == integer_member(key@, value as int),
{
    JsonMember { key: key.to_owned(), value: JsonScalar::Integer(value) }
}

/// A member with a string value.
fn text(key: &str, value: &str) -> (member: JsonMember)
    ensures
        member@ == text_member(key@, value@),
{
    JsonMember { key: key.to_owned(), value: JsonScalar::Text(value.to_owned()) }
}

/// A member with a single-precision value.
fn single(key: &str, bits: u32) -> (member: JsonMember)
    ensures
        member@ == single_member(key@, bits),
{
    JsonMember { key: key.to_owned(), value: JsonScalar::Single(bits) }
}

/// The type string under which a block is written: `field` for a
/// measurement, `marker` for a marker.
pub fn block_type_name(block: &DataBlock) -> (name: &'static str)
    ensures
        name@ == kind_name(block@),
{
    match block {
        DataBlock::Measurement { .. } => "field",
        DataBlock::Marker { .. } => "marker",
    }
}

/// The object of a field descriptor.
pub fn field_members(field: &LoggerField) -> (members: Vec<JsonMember>)
    ensures
        member_views(members@) == json_field(field@),
{
    let mut members: Vec<JsonMember> = Vec::new();
    members.push(integer("fieldType", field.field_type as i64));
    members.push(text("name", field.name.as_str()));
    members.push(text("units", field.units.as_str()));
    members.push(text("displayStyle", field.display_style.name()));
    members.push(single("scale", field.scale_bits));
    members.push(single("transform", field.transform_bits));
    members.push(integer("digits", field.digits as i64));
    members
}

/// The object of a block.
pub fn block_members(block: &DataBlock) -> (members: Vec<JsonMember>)
    ensures
        is_json_block(block@, member_views(members@)),
{
    let mut members: Vec<JsonMember> = Vec::new();
    members.push(integer("timestamp", block.timestamp() as i64));
    members.push(text("type", block_type_name(block)));
    assert(member_views(members@).take(2) =~= json_block_head(block@));
    match block {
        DataBlock::Measurement { records, .. } => {
            let pairs: Vec<(String, Sample)> = records.entries();
            let ghost head = member_views(members@);
            assert(head.take(2) =~= head);
            let mut done: usize = 0;
            while done < pairs.len()
                invariant
                    done <= pairs@.len(),
                    members@.len() == 2 + done,
                    member_views(members@).take(2) == head,
                    forall|i: int|
                        0 <= i < done ==> (#[trigger] members@[2 + i])@.key == pairs@[i].0@
                            && members@[2 + i]@.value == ScalarView::Double(pairs@[i].1),
                decreases pairs@.len() - done,
            {
                let name: String = pairs[done].0.clone();
                let value: Sample = pairs[done].1;
                members.push(JsonMember { key: name, value: JsonScalar::Double(value) });
                done = done + 1;
            }
            proof {
                let listed = member_views(members@).skip(2);
                assert forall|i: int| 0 <= i < listed.len() implies (#[trigger] listed[i]).key
                    == pairs@[i].0@ && listed[i].value == ScalarView::Double(pairs@[i].1) by {
                    assert(listed[i] == members@[2 + i]@);
                }
                assert forall|name: Seq<char>| records@.dom().contains(name) implies exists|i: int|
                    0 <= i < listed.len() && (#[trigger] listed[i]).key == name by {
                    let i = choose|i: int|
                        0 <= i < pairs@.len() && (#[trigger] pairs@[i]).0@ == name;
                    assert(listed[i].key == name);
                }
            }
        },
        DataBlock::Marker { message, .. } => {
            members.push(text("message", message.as_str()));
            assert(member_views(members@).skip(2) =~= seq![text_member("message"@, message@)]);
            assert(member_views(members@).take(2) =~= json_block_head(block@));
        },
    }
    members
}

/// The first members of the top-level object.
fn head_entries(header: &FileHeader) -> (entries: Vec<JsonEntry>)
    ensures
        entry_views(entries@) == json_head(header@),
{
    let mut entries: Vec<JsonEntry> = Vec::new();
    entries.push(
        JsonEntry {
            key: "fileFormat".to_owned(),
            value: JsonValue::Scalar(JsonScalar::Text(header.file_format.clone())),
        },
    );
    entries.push(integer_scalar("formatVersion", header.format_version as i64));
    entries.push(integer_scalar("timestamp", header.timestamp as i64));
    entries.push(integer_scalar("infoDataStart", header.info_data_start as i64));
    entries.push(integer_scalar("dataBeginIndex", header.data_begin_index as i64));
    entries.push(integer_scalar("recordLength", header.record_length as i64));
    entries.push(integer_scalar("numLoggerFields", header.num_logger_fields as i64));
    entries
}

/// A top-level member with an integer value.
fn integer_scalar(key: &str, value: i64) -> (entry: JsonEntry)
    ensures
        entry@ == integer_entry(key@, value as int),
{
    JsonEntry { key: key.to_owned(), value: JsonValue::Scalar(JsonScalar::Integer(value)) }
}

/// A top-level member with a string value.
fn text_scalar(key: &str, value: &String) -> (entry: JsonEntry)
    ensures
        entry@ == text_entry(key@, value@),
{
    JsonEntry { key: key.to_owned(), value: JsonValue::Scalar(JsonScalar::Text(value.clone())) }
}

impl Document {
    /// The array of the field descriptors' objects.
    pub fn json_fields(&self) -> (objects: Vec<Vec<JsonMember>>)
        ensures
            object_views(objects@) == json_fields(self@.fields),
    {
        let fields: &Vec<LoggerField> = self.fields();
        let mut objects: Vec<Vec<JsonMember>> = Vec::new();
        let mut done: usize = 0;
        while done < fields.len()
            invariant
                done <= fields@.len(),
                objects@.len() == done,
                forall|i: int|
                    0 <= i < done ==> member_views((#[trigger] objects@[i])@) == json_field(
                        fields@[i]@,
                    ),
            decreases fields@.len() - done,
        {
            objects.push(field_members(&fields[done]));
            done = done + 1;
        }
        objects
    }

    /// The array of the blocks' objects, in file order.
    pub fn json_blocks(&self) -> (objects: Vec<Vec<JsonMember>>)
        ensures
            is_json_blocks(self@.data_blocks, object_views(objects@)),
    {
        let blocks: &Vec<DataBlock> = self.data_blocks();
        let mut objects: Vec<Vec<JsonMember>> = Vec::new();
        let mut done: usize = 0;
        while done < blocks.len()
            invariant
                done <= blocks@.len(),
                objects@.len() == done,
                forall|i: int|
                    0 <= i < done ==> is_json_block(
                        blocks@[i]@,
                        member_views((#[trigger] objects@[i])@),
                    ),
            decreases blocks@.len() - done,
        {
            objects.push(block_members(&blocks[done]));
            done = done + 1;
        }
        objects
    }

    /// The top-level object of the document, member by member.
    pub fn to_json(&self) -> (json: Vec<JsonEntry>)
        ensures
            is_json_of(self@, entry_views(json@)),
    {
        let mut json: Vec<JsonEntry> = head_entries(self.header());
        let ghost head = entry_views(json@);
        assert(head.len() == 7);
        json.push(JsonEntry { key: "fields".to_owned(), value: JsonValue::Objects(self.json_fields()) });
        json.push(text_scalar("bitFieldNames", self.bit_field_names()));
        json.push(text_scalar("infoData", self.info_data()));
        json.push(
            JsonEntry { key: "dataBlocks".to_owned(), value: JsonValue::Objects(self.json_blocks()) },
        );
        assert(entry_views(json@).take(7) =~= head);
        json
    }
}

} // verus!
