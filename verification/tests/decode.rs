use mlg::{
    decode, decode_block, decode_blocks, decode_field, decode_fields, decode_header, measure_row,
    DataBlock, DecodeError, DisplayStyle, LoggerField, Sample,
};

fn padded(text: &[u8], length: usize) -> Vec<u8> {
    let mut bytes = text.to_vec();
    assert!(bytes.len() <= length);
    bytes.resize(length, 0);
    bytes
}

fn header_bytes(
    marker: &[u8],
    version: i16,
    timestamp: i32,
    info_data_start: i16,
    data_begin_index: i32,
    record_length: i16,
    num_logger_fields: i16,
) -> Vec<u8> {
    let mut bytes = padded(marker, 6);
    bytes.extend_from_slice(&version.to_be_bytes());
    bytes.extend_from_slice(&timestamp.to_be_bytes());
    bytes.extend_from_slice(&info_data_start.to_be_bytes());
    bytes.extend_from_slice(&data_begin_index.to_be_bytes());
    bytes.extend_from_slice(&record_length.to_be_bytes());
    bytes.extend_from_slice(&num_logger_fields.to_be_bytes());
    bytes
}

fn field_bytes(
    field_type: i8,
    name: &str,
    units: &str,
    style: i8,
    scale: f32,
    transform: f32,
    digits: i8,
) -> Vec<u8> {
    let mut bytes = vec![field_type as u8];
    bytes.extend(padded(name.as_bytes(), 34));
    bytes.extend(padded(units.as_bytes(), 10));
    bytes.push(style as u8);
    bytes.extend_from_slice(&scale.to_be_bytes());
    bytes.extend_from_slice(&transform.to_be_bytes());
    bytes.push(digits as u8);
    bytes
}

fn measurement_bytes(counter: i8, timestamp: u16, scalars: &[u8]) -> Vec<u8> {
    let mut bytes = vec![0u8, counter as u8];
    bytes.extend_from_slice(&timestamp.to_be_bytes());
    bytes.extend_from_slice(scalars);
    bytes.push(0xa5);
    bytes
}

fn marker_bytes(counter: i8, timestamp: u16, message: &str) -> Vec<u8> {
    let mut bytes = vec![1u8, counter as u8];
    bytes.extend_from_slice(&timestamp.to_be_bytes());
    bytes.extend(padded(message.as_bytes(), 50));
    bytes
}

fn file_bytes(fields: &[Vec<u8>], bit_field_names: &str, info_data: &str, blocks: &[Vec<u8>]) -> Vec<u8> {
    let info_data_start = 22 + 55 * fields.len() + bit_field_names.len();
    let data_begin_index = info_data_start + info_data.len();
    let mut bytes = header_bytes(
        b"MLVLG",
        1,
        1_600_000_000,
        info_data_start as i16,
        data_begin_index as i32,
        0,
        fields.len() as i16,
    );
    for field in fields {
        bytes.extend_from_slice(field);
    }
    bytes.extend_from_slice(bit_field_names.as_bytes());
    bytes.extend_from_slice(info_data.as_bytes());
    for block in blocks {
        bytes.extend_from_slice(block);
    }
    bytes
}

fn two_fields() -> Vec<Vec<u8>> {
    vec![
        field_bytes(2, "RPM", "rpm", 0, 1.0, 0.0, 0),
        field_bytes(7, "AFR", "ratio", 1, 2.0, 5.0, 2),
    ]
}

fn sample_file() -> Vec<u8> {
    file_bytes(
        &two_fields(),
        "bit names",
        "info text",
        &[
            measurement_bytes(1, 100, &[0x03, 0xe8, 0x41, 0x20, 0x00, 0x00]),
            marker_bytes(2, 200, "Ignition"),
            measurement_bytes(-3, 65535, &[0xff, 0xff, 0xc1, 0x20, 0x00, 0x00]),
        ],
    )
}

fn rejection(bytes: &[u8]) -> DecodeError {
    match decode(bytes) {
        Ok(_) => panic!("the buffer decoded"),
        Err(e) => e,
    }
}

#[test]
fn a_whole_file_decodes() {
    let bytes = sample_file();
    let document = decode(&bytes).expect("decodes");
    let header = document.header();
    assert_eq!(header.file_format, "MLVLG");
    assert_eq!(header.format_version, 1);
    assert_eq!(header.timestamp, 1_600_000_000);
    assert_eq!(header.info_data_start, 22 + 110 + 9);
    assert_eq!(header.data_begin_index, 22 + 110 + 18);
    assert_eq!(header.record_length, 0);
    assert_eq!(header.num_logger_fields, 2);
    assert_eq!(
        document.fields(),
        &vec![
            LoggerField {
                field_type: 2,
                name: "RPM".to_string(),
                units: "rpm".to_string(),
                display_style: DisplayStyle::Float,
                scale_bits: 1.0f32.to_bits(),
                transform_bits: 0.0f32.to_bits(),
                digits: 0,
            },
            LoggerField {
                field_type: 7,
                name: "AFR".to_string(),
                units: "ratio".to_string(),
                display_style: DisplayStyle::Hex,
                scale_bits: 2.0f32.to_bits(),
                transform_bits: 5.0f32.to_bits(),
                digits: 2,
            },
        ]
    );
    assert_eq!(document.bit_field_names(), "bit names");
    assert_eq!(document.info_data(), "info text");
    let blocks = document.data_blocks();
    assert_eq!(blocks.len(), 3);
    match &blocks[0] {
        DataBlock::Measurement { counter, timestamp, records } => {
            assert_eq!((*counter, *timestamp), (1, 100));
            assert_eq!(records.get("RPM"), Some(Sample::Integer(1000)));
            assert_eq!(records.get("AFR"), Some(Sample::Single(0x4120_0000)));
            assert_eq!(records.get("rpm"), None);
            assert_eq!(records.entries().len(), 2);
        }
        other => panic!("not a measurement: {:?}", other),
    }
    assert_eq!(
        blocks[1],
        DataBlock::Marker { counter: 2, timestamp: 200, message: "Ignition".to_string() }
    );
    match &blocks[2] {
        DataBlock::Measurement { counter, timestamp, records } => {
            assert_eq!((*counter, *timestamp), (-3, 65535));
            assert_eq!(records.get("RPM"), Some(Sample::Integer(65535)));
            assert_eq!(records.get("AFR"), Some(Sample::Single(0xc120_0000)));
        }
        other => panic!("not a measurement: {:?}", other),
    }
    assert_eq!(blocks[0].block_type(), 0);
    assert_eq!(blocks[1].block_type(), 1);
    assert_eq!(blocks[2].counter(), -3);
    assert_eq!(blocks[1].timestamp(), 200);
}

#[test]
fn decoding_twice_gives_the_same_document() {
    let bytes = sample_file();
    assert_eq!(decode(&bytes), decode(&bytes));
}

#[test]
fn a_file_without_fields_and_blocks_decodes() {
    let bytes = file_bytes(&[], "", "", &[]);
    assert_eq!(bytes.len(), 22);
    let document = decode(&bytes).expect("decodes");
    assert!(document.fields().is_empty());
    assert!(document.data_blocks().is_empty());
    assert_eq!(document.bit_field_names(), "");
    assert_eq!(document.info_data(), "");
}

#[test]
fn declared_offsets_are_in_order_and_inside_the_buffer() {
    for bytes in [sample_file(), file_bytes(&[], "", "", &[]), file_bytes(&two_fields(), "", "x", &[])] {
        let mut offset = 0usize;
        let header = decode_header(&bytes, &mut offset).expect("decodes");
        assert_eq!(offset, 22);
        assert!(0 <= header.info_data_start);
        assert!(header.info_data_start as i32 <= header.data_begin_index);
        assert!(header.data_begin_index as usize <= bytes.len());
    }
}

#[test]
fn a_wrong_marker_is_an_unsupported_format_before_anything_else_is_read() {
    assert_eq!(rejection(b"MLVLH\0"), DecodeError::UnsupportedFormat);
    assert_eq!(rejection(b"ABCDEF"), DecodeError::UnsupportedFormat);
    assert_eq!(rejection(b"\0\0\0\0\0\0"), DecodeError::UnsupportedFormat);
    assert_eq!(rejection(b"MLVLGX"), DecodeError::UnsupportedFormat);
    assert_eq!(rejection(b"mlvlg\0"), DecodeError::UnsupportedFormat);
    let mut bytes = sample_file();
    bytes[0] = b'N';
    assert_eq!(rejection(&bytes), DecodeError::UnsupportedFormat);
    // Nothing behind the marker is looked at: a version that is not
    // supported and offsets that are out of order change nothing.
    let bytes = header_bytes(b"MLVLX", 9, 0, 50, 10, 0, -4);
    assert_eq!(rejection(&bytes), DecodeError::UnsupportedFormat);
    let mut offset = 0usize;
    assert_eq!(decode_header(&bytes, &mut offset), Err(DecodeError::UnsupportedFormat));
    assert_eq!(offset, 0);
}

#[test]
fn a_marker_that_is_not_utf8_is_invalid_text() {
    assert_eq!(rejection(&[0xff, b'L', b'V', b'L', b'G', 0]), DecodeError::InvalidText);
}

#[test]
fn a_header_that_stops_early_is_truncated() {
    let whole = header_bytes(b"MLVLG", 1, 0, 22, 22, 0, 0);
    assert!(decode(&whole).is_ok());
    for length in 0..22 {
        assert_eq!(rejection(&whole[..length]), DecodeError::UnexpectedEndOfData, "{}", length);
    }
}

#[test]
fn only_version_one_is_supported() {
    for version in [0i16, 2, -1, 256, i16::MAX, i16::MIN] {
        let bytes = header_bytes(b"MLVLG", version, 0, 22, 22, 0, 0);
        assert_eq!(rejection(&bytes), DecodeError::UnsupportedVersion);
        // The version is judged as soon as it is read.
        assert_eq!(rejection(&bytes[..8]), DecodeError::UnsupportedVersion);
    }
}

#[test]
fn offsets_out_of_order_are_a_corrupt_layout() {
    // info data declared behind the blocks
    assert_eq!(rejection(&header_bytes(b"MLVLG", 1, 0, 23, 22, 0, 0)), DecodeError::CorruptLayout);
    // a negative offset
    assert_eq!(rejection(&header_bytes(b"MLVLG", 1, 0, -1, 22, 0, 0)), DecodeError::CorruptLayout);
    assert_eq!(rejection(&header_bytes(b"MLVLG", 1, 0, -5, -2, 0, 0)), DecodeError::CorruptLayout);
    // blocks declared behind the end of the buffer
    assert_eq!(rejection(&header_bytes(b"MLVLG", 1, 0, 22, 23, 0, 0)), DecodeError::CorruptLayout);
    assert_eq!(
        rejection(&header_bytes(b"MLVLG", 1, 0, 22, i32::MAX, 0, 0)),
        DecodeError::CorruptLayout
    );
    // info data declared inside the header
    assert_eq!(rejection(&header_bytes(b"MLVLG", 1, 0, 21, 22, 0, 0)), DecodeError::CorruptLayout);
    assert_eq!(rejection(&header_bytes(b"MLVLG", 1, 0, 0, 0, 0, 0)), DecodeError::CorruptLayout);
}

#[test]
fn info_data_declared_inside_the_field_table_is_a_corrupt_layout() {
    let mut bytes = header_bytes(b"MLVLG", 1, 0, 22 + 54, 22 + 55, 0, 1);
    bytes.extend(field_bytes(0, "a", "b", 0, 1.0, 0.0, 0));
    assert_eq!(rejection(&bytes), DecodeError::CorruptLayout);
}

#[test]
fn a_negative_field_count_is_a_corrupt_layout() {
    for count in [-1i16, -595, i16::MIN] {
        let bytes = header_bytes(b"MLVLG", 1, 0, 22, 22, 0, count);
        assert_eq!(rejection(&bytes), DecodeError::CorruptLayout);
        let mut offset = 22usize;
        assert_eq!(decode_fields(&bytes, &mut offset, count), Err(DecodeError::CorruptLayout));
        assert_eq!(offset, 22);
    }
}

#[test]
fn a_field_table_longer_than_the_buffer_is_truncated_data() {
    // one descriptor declared, none present
    let bytes = header_bytes(b"MLVLG", 1, 0, 22, 22, 0, 1);
    assert_eq!(rejection(&bytes), DecodeError::UnexpectedEndOfData);
    // two declared, one and a half present
    let mut bytes = header_bytes(b"MLVLG", 1, 0, 22, 22, 0, 2);
    bytes.extend(field_bytes(0, "a", "b", 0, 1.0, 0.0, 0));
    bytes.extend_from_slice(&field_bytes(0, "c", "d", 0, 1.0, 0.0, 0)[..30]);
    let header = decode_header(&bytes, &mut 0).expect("a valid header");
    assert_eq!(header.data_begin_index, 22);
    assert_eq!(rejection(&bytes), DecodeError::UnexpectedEndOfData);
    // the largest count that a header can declare
    let bytes = header_bytes(b"MLVLG", 1, 0, 22, 22, 0, i16::MAX);
    assert_eq!(rejection(&bytes), DecodeError::UnexpectedEndOfData);
    // truncation is reported even where the descriptors that are present
    // have faults of their own
    let mut bytes = header_bytes(b"MLVLG", 1, 0, 22, 22, 0, 2);
    bytes.extend(field_bytes(0, "a", "b", 99, 1.0, 0.0, 0));
    assert_eq!(rejection(&bytes), DecodeError::UnexpectedEndOfData);
}

#[test]
fn one_descriptor_is_read_field_by_field() {
    let bytes = field_bytes(-7, "Name of the field", "kPa", 7, 0.5, -1.5, -2);
    assert_eq!(bytes.len(), 55);
    let mut offset = 0usize;
    assert_eq!(
        decode_field(&bytes, &mut offset),
        Ok(LoggerField {
            field_type: -7,
            name: "Name of the field".to_string(),
            units: "kPa".to_string(),
            display_style: DisplayStyle::ActiveInactive,
            scale_bits: 0.5f32.to_bits(),
            transform_bits: (-1.5f32).to_bits(),
            digits: -2,
        })
    );
    assert_eq!(offset, 55);
    let mut offset = 1usize;
    assert_eq!(decode_field(&bytes, &mut offset), Err(DecodeError::UnexpectedEndOfData));
    assert_eq!(offset, 1);
}

#[test]
fn an_unknown_display_style_is_fatal() {
    for style in [8i8, -1, 100, i8::MIN] {
        let bytes = file_bytes(&[field_bytes(0, "a", "b", style, 1.0, 0.0, 0)], "", "", &[]);
        assert_eq!(rejection(&bytes), DecodeError::UnsupportedDisplayStyle);
    }
    // the first descriptor with a fault decides
    let fields = [
        field_bytes(0, "a", "b", 0, 1.0, 0.0, 0),
        field_bytes(0, "c", "d", 9, 1.0, 0.0, 0),
        field_bytes(0, "\u{0}", "d", 0, 1.0, 0.0, 0),
    ];
    assert_eq!(rejection(&file_bytes(&fields, "", "", &[])), DecodeError::UnsupportedDisplayStyle);
}

#[test]
fn text_that_is_not_utf8_is_fatal_wherever_it_stands() {
    let good = file_bytes(&two_fields(), "names", "info", &[marker_bytes(0, 0, "message")]);
    assert!(decode(&good).is_ok());
    let places = [
        22 + 1,             // name of the first field
        22 + 35,            // units of the first field
        22 + 110,           // bit-field names
        22 + 110 + 5,       // info data
        22 + 110 + 9 + 4,   // message of the marker
    ];
    for place in places {
        let mut bytes = good.clone();
        bytes[place] = 0xff;
        assert_eq!(rejection(&bytes), DecodeError::InvalidText, "at {}", place);
    }
}

#[test]
fn every_scalar_encoding_decodes() {
    let codes = [0i8, 1, 2, 3, 4, 5, 6, 7, 10, 11, 12];
    let names = ["u8", "i8", "u16", "i16", "u32", "i32", "i64", "single", "b8", "b16", "b32"];
    let fields: Vec<Vec<u8>> = codes
        .iter()
        .zip(names)
        .map(|(code, name)| field_bytes(*code, name, "", 0, 1.0, 0.0, 0))
        .collect();
    let mut scalars: Vec<u8> = Vec::new();
    scalars.push(200);
    scalars.push(0x9c);
    scalars.extend_from_slice(&60000u16.to_be_bytes());
    scalars.extend_from_slice(&(-12345i16).to_be_bytes());
    scalars.extend_from_slice(&4_000_000_000u32.to_be_bytes());
    scalars.extend_from_slice(&(-2_000_000_000i32).to_be_bytes());
    scalars.extend_from_slice(&(-9_000_000_000_000_000_000i64).to_be_bytes());
    scalars.extend_from_slice(&3.5f32.to_be_bytes());
    scalars.push(0b1010_0101);
    scalars.extend_from_slice(&0xbeefu16.to_be_bytes());
    scalars.extend_from_slice(&0xdead_beefu32.to_be_bytes());
    assert_eq!(scalars.len(), 1 + 1 + 2 + 2 + 4 + 4 + 8 + 4 + 1 + 2 + 4);
    let fields_decoded = decode_fields(&fields.concat(), &mut 0, 11).expect("a valid table");
    assert_eq!(measure_row(&fields_decoded), Some(scalars.len()));
    let bytes = file_bytes(&fields, "", "", &[measurement_bytes(9, 7, &scalars)]);
    let document = decode(&bytes).expect("decodes");
    let wanted = [
        Sample::Integer(200),
        Sample::Integer(-100),
        Sample::Integer(60000),
        Sample::Integer(-12345),
        Sample::Integer(4_000_000_000),
        Sample::Integer(-2_000_000_000),
        Sample::Integer(-9_000_000_000_000_000_000),
        Sample::Single(3.5f32.to_bits()),
        Sample::Integer(0b1010_0101),
        Sample::Integer(0xbeef),
        Sample::Integer(0xdead_beef),
    ];
    match &document.data_blocks()[0] {
        DataBlock::Measurement { records, .. } => {
            for (name, want) in names.iter().zip(wanted) {
                assert_eq!(records.get(name), Some(want), "{}", name);
            }
            assert_eq!(records.entries().len(), 11);
        }
        other => panic!("not a measurement: {:?}", other),
    }
}

#[test]
fn an_unknown_field_type_is_fatal_for_a_measurement() {
    for code in [8i8, 9, 13, -1, i8::MAX] {
        let fields = [field_bytes(0, "a", "", 0, 1.0, 0.0, 0), field_bytes(code, "b", "", 0, 1.0, 0.0, 0)];
        let bytes = file_bytes(&fields, "", "", &[measurement_bytes(0, 0, &[1, 2])]);
        assert_eq!(rejection(&bytes), DecodeError::UnsupportedFieldType);
        let table = decode_fields(&fields.concat(), &mut 0, 2).expect("a valid table");
        assert_eq!(measure_row(&table), None);
        // Without a measurement nothing is read by the code.
        assert!(decode(&file_bytes(&fields, "", "", &[])).is_ok());
        assert!(decode(&file_bytes(&fields, "", "", &[marker_bytes(0, 0, "m")])).is_ok());
    }
}

#[test]
fn an_unknown_block_type_is_fatal() {
    for kind in [2u8, 3, 0x7f, 0x80, 0xff] {
        let mut block = marker_bytes(0, 0, "m");
        block[0] = kind;
        let bytes = file_bytes(&two_fields(), "", "", &[marker_bytes(0, 0, "first"), block]);
        assert_eq!(rejection(&bytes), DecodeError::UnsupportedBlockType);
    }
}

#[test]
fn a_truncated_last_block_is_not_dropped() {
    let whole = sample_file();
    let begin = 22 + 110 + 18;
    let first_end = begin + 4 + 6 + 1;
    let second_end = first_end + 54;
    assert_eq!(whole.len(), second_end + 11);
    for length in begin..whole.len() {
        let outcome = decode(&whole[..length]);
        if length == begin || length == first_end || length == second_end {
            let blocks = outcome.expect("ends between two blocks");
            let count = if length == begin { 0 } else if length == first_end { 1 } else { 2 };
            assert_eq!(blocks.data_blocks().len(), count);
        } else {
            assert_eq!(outcome, Err(DecodeError::UnexpectedEndOfData), "length {}", length);
        }
    }
}

#[test]
fn the_checksum_byte_of_a_measurement_is_skipped_unread() {
    let fields = [field_bytes(0, "a", "", 0, 1.0, 0.0, 0)];
    let mut first = measurement_bytes(0, 0, &[7]);
    let mut second = measurement_bytes(0, 0, &[7]);
    *first.last_mut().unwrap() = 0x00;
    *second.last_mut().unwrap() = 0xff;
    let one = decode(&file_bytes(&fields, "", "", &[first.clone(), first])).expect("decodes");
    let other = decode(&file_bytes(&fields, "", "", &[second.clone(), second])).expect("decodes");
    assert_eq!(one, other);
    assert_eq!(one.data_blocks().len(), 2);
}

#[test]
fn a_measurement_without_fields_is_its_prefix_and_checksum_byte() {
    let bytes = file_bytes(&[], "", "", &[measurement_bytes(1, 2, &[]), measurement_bytes(3, 4, &[])]);
    assert_eq!(bytes.len(), 22 + 5 + 5);
    let document = decode(&bytes).expect("decodes");
    assert_eq!(document.data_blocks().len(), 2);
    match &document.data_blocks()[1] {
        DataBlock::Measurement { counter, timestamp, records } => {
            assert_eq!((*counter, *timestamp), (3, 4));
            assert!(records.entries().is_empty());
        }
        other => panic!("not a measurement: {:?}", other),
    }
}

#[test]
fn of_two_fields_with_one_name_the_later_value_stands() {
    let fields = [
        field_bytes(0, "same", "", 0, 1.0, 0.0, 0),
        field_bytes(2, "other", "", 0, 1.0, 0.0, 0),
        field_bytes(1, "same", "", 0, 1.0, 0.0, 0),
    ];
    let bytes = file_bytes(&fields, "", "", &[measurement_bytes(0, 0, &[5, 0x01, 0x00, 0xfe])]);
    let document = decode(&bytes).expect("decodes");
    match &document.data_blocks()[0] {
        DataBlock::Measurement { records, .. } => {
            assert_eq!(records.get("same"), Some(Sample::Integer(-2)));
            assert_eq!(records.get("other"), Some(Sample::Integer(256)));
            let mut entries = records.entries();
            entries.sort_by(|a, b| a.0.cmp(&b.0));
            assert_eq!(
                entries,
                vec![
                    ("other".to_string(), Sample::Integer(256)),
                    ("same".to_string(), Sample::Integer(-2)),
                ]
            );
        }
        other => panic!("not a measurement: {:?}", other),
    }
}

#[test]
fn a_marker_message_is_its_text_without_the_padding() {
    let block = marker_bytes(5, 6, "Overheat");
    assert_eq!(block.len(), 54);
    assert_eq!(&block[4..12], b"Overheat");
    assert!(block[12..].iter().all(|byte| *byte == 0));
    let mut offset = 0usize;
    assert_eq!(
        decode_block(&block, &mut offset, &Vec::new()),
        Ok(DataBlock::Marker { counter: 5, timestamp: 6, message: "Overheat".to_string() })
    );
    assert_eq!(offset, 54);
    // a message that fills the slot
    let full = "x".repeat(50);
    let document = decode(&file_bytes(&[], "", "", &[marker_bytes(0, 0, &full)])).expect("decodes");
    assert_eq!(
        document.data_blocks()[0],
        DataBlock::Marker { counter: 0, timestamp: 0, message: full }
    );
}

#[test]
fn blocks_are_read_to_the_end_of_the_buffer() {
    let table = decode_fields(&two_fields().concat(), &mut 0, 2).expect("a valid table");
    let mut stream = vec![0xeeu8; 3];
    stream.extend(marker_bytes(0, 1, "a"));
    stream.extend(measurement_bytes(0, 2, &[0, 1, 0, 0, 0, 0]));
    stream.extend(marker_bytes(0, 3, "b"));
    let mut offset = 3usize;
    let blocks = decode_blocks(&stream, &mut offset, &table).expect("decodes");
    assert_eq!(offset, stream.len());
    assert_eq!(blocks.len(), 3);
    assert_eq!(blocks.iter().map(|b| b.timestamp()).collect::<Vec<u16>>(), vec![1, 2, 3]);
    // at the end nothing is left to read
    assert_eq!(decode_blocks(&stream, &mut offset, &table), Ok(Vec::new()));
    assert_eq!(offset, stream.len());
    // on failure the cursor stays
    stream.push(1);
    let mut offset = 3usize;
    assert_eq!(decode_blocks(&stream, &mut offset, &table), Err(DecodeError::UnexpectedEndOfData));
    assert_eq!(offset, 3);
}
