use std::io::ErrorKind;
use wad::{BinaryReader, Entry, EntryDataChecksum, EntryDataFormat, WadError};

fn record(
    hash: u64,
    offset: u32,
    compressed: i32,
    uncompressed: i32,
    tag: u8,
    flag: u8,
    checksum: Option<[u8; 8]>,
) -> Vec<u8> {
    let mut bytes = Vec::new();
    bytes.extend_from_slice(&hash.to_le_bytes());
    bytes.extend_from_slice(&offset.to_le_bytes());
    bytes.extend_from_slice(&compressed.to_le_bytes());
    bytes.extend_from_slice(&uncompressed.to_le_bytes());
    bytes.push(tag);
    bytes.push(flag);
    bytes.extend_from_slice(&[0xaa, 0xbb]);
    if let Some(checksum) = checksum {
        bytes.extend_from_slice(&checksum);
    }
    bytes
}

#[test]
fn entry_fields_are_decoded_in_order() {
    let bytes = vec![
        0x01, 0x02, 0x03, 0x04, 0x05, 0x06, 0x07, 0x08, // hash
        0x10, 0x20, 0x30, 0x40, // offset
        0x64, 0x00, 0x00, 0x00, // compressed size
        0xc8, 0x00, 0x00, 0x00, // uncompressed size
        0x03, // format
        0x01, // duplicate flag
        0xde, 0xad, // unused
        1, 2, 3, 4, 5, 6, 7, 8, // checksum
    ];
    let mut reader = BinaryReader::new(bytes);
    let entry = Entry::read(&mut reader, 3, 1).unwrap();
    assert_eq!(entry.xxhash(), 0x0807_0605_0403_0201);
    assert_eq!(entry.data_offset(), 0x4030_2010);
    assert_eq!(entry.compressed_size(), 100);
    assert_eq!(entry.uncompressed_size(), 200);
    assert_eq!(entry.data_format(), EntryDataFormat::Zstd);
    assert!(entry.is_duplicated());
    assert_eq!(entry.data_checksum(), &EntryDataChecksum::XxHash3(vec![1, 2, 3, 4, 5, 6, 7, 8]));
    assert_eq!(reader.position(), 32);
}

#[test]
fn entry_sizes_keep_their_sign() {
    let bytes = record(7, 0, -1, i32::MIN, 0, 0, None);
    let mut reader = BinaryReader::new(bytes);
    let entry = Entry::read(&mut reader, 1, 0).unwrap();
    assert_eq!(entry.compressed_size(), -1);
    assert_eq!(entry.uncompressed_size(), i32::MIN);

    let bytes = record(7, u32::MAX, i32::MAX, -2, 0, 0, None);
    let mut reader = BinaryReader::new(bytes);
    let entry = Entry::read(&mut reader, 0, 0).unwrap();
    assert_eq!(entry.data_offset(), u32::MAX);
    assert_eq!(entry.compressed_size(), i32::MAX);
    assert_eq!(entry.uncompressed_size(), -2);
}

#[test]
fn entry_hash_takes_all_eight_bytes() {
    let bytes = record(u64::MAX, 0, 0, 0, 0, 0, None);
    let mut reader = BinaryReader::new(bytes);
    assert_eq!(Entry::read(&mut reader, 0, 0).unwrap().xxhash(), u64::MAX);

    let bytes = record(1 << 63, 0, 0, 0, 0, 0, None);
    let mut reader = BinaryReader::new(bytes);
    assert_eq!(Entry::read(&mut reader, 0, 0).unwrap().xxhash(), 0x8000_0000_0000_0000);
}

#[test]
fn duplicate_flag_is_set_by_one_only() {
    for (flag, expected) in [(0u8, false), (1, true), (2, false), (0x80, false), (0xff, false)] {
        let mut reader = BinaryReader::new(record(1, 2, 3, 4, 0, flag, None));
        let entry = Entry::read(&mut reader, 1, 0).unwrap();
        assert_eq!(entry.is_duplicated(), expected);
    }
}

#[test]
fn every_known_format_tag_is_decoded() {
    let formats = [
        EntryDataFormat::Raw,
        EntryDataFormat::GZip,
        EntryDataFormat::FileRedirection,
        EntryDataFormat::Zstd,
        EntryDataFormat::Unknown,
    ];
    for (tag, format) in formats.iter().enumerate() {
        let mut reader = BinaryReader::new(record(1, 2, 3, 4, tag as u8, 0, None));
        let entry = Entry::read(&mut reader, 0, 0).unwrap();
        assert_eq!(entry.data_format(), *format);
    }
}

#[test]
fn unknown_format_tag_is_refused_with_the_tag() {
    let mut reader = BinaryReader::new(record(1, 2, 3, 4, 5, 0, Some([0; 8])));
    let result = Entry::read(&mut reader, 3, 1);
    assert!(matches!(result, Err(WadError::UnknownEntryDataFormat(5))));
    assert_eq!(reader.position(), 21);

    for tag in 5..=255u8 {
        let mut reader = BinaryReader::new(record(1, 2, 3, 4, tag, 0, None));
        match Entry::read(&mut reader, 0, 0) {
            Err(WadError::UnknownEntryDataFormat(found)) => assert_eq!(found, tag),
            other => panic!("tag {} gave {:?}", tag, other),
        }
    }
}

#[test]
fn unknown_format_is_reported_before_a_missing_rest() {
    let mut bytes = record(1, 2, 3, 4, 9, 0, None);
    bytes.truncate(21);
    let mut reader = BinaryReader::new(bytes);
    assert!(matches!(
        Entry::read(&mut reader, 3, 1),
        Err(WadError::UnknownEntryDataFormat(9))
    ));
    assert_eq!(reader.position(), 21);
}

#[test]
fn record_that_ends_before_its_tag_fails_with_io_error() {
    let mut bytes = record(1, 2, 3, 4, 9, 0, None);
    bytes.truncate(20);
    let mut reader = BinaryReader::new(bytes);
    match Entry::read(&mut reader, 3, 1) {
        Err(WadError::IoError(error)) => assert_eq!(error.kind(), ErrorKind::UnexpectedEof),
        other => panic!("{:?}", other),
    }
    assert_eq!(reader.position(), 20);
}

#[test]
fn truncated_record_stops_after_its_last_whole_field() {
    let whole = record(1, 2, 3, 4, 2, 1, Some([1, 2, 3, 4, 5, 6, 7, 8]));
    assert_eq!(whole.len(), 32);
    let stops = [0usize, 8, 12, 16, 20, 21, 22, 24];
    for length in 0..32usize {
        let mut reader = BinaryReader::new(whole[..length].to_vec());
        match Entry::read(&mut reader, 2, 0) {
            Err(WadError::IoError(error)) => assert_eq!(error.kind(), ErrorKind::UnexpectedEof),
            other => panic!("length {} gave {:?}", length, other),
        }
        let expected = stops.iter().copied().filter(|stop| *stop <= length).max().unwrap();
        assert_eq!(reader.position(), expected);
    }
    let mut reader = BinaryReader::new(whole);
    assert!(Entry::read(&mut reader, 2, 0).is_ok());
    assert_eq!(reader.position(), 32);
}

#[test]
fn record_width_depends_on_the_major_version() {
    let mut bytes = record(1, 2, 3, 4, 0, 0, Some([9; 8]));
    bytes.extend_from_slice(&[0; 8]);
    for (major, width) in [(0u8, 24usize), (1, 24), (2, 32), (3, 32)] {
        let mut reader = BinaryReader::new(bytes.clone());
        assert!(Entry::read(&mut reader, major, 0).is_ok());
        assert_eq!(reader.position(), width);
    }
}

#[test]
fn records_before_version_2_have_no_checksum() {
    for major in [0u8, 1] {
        for minor in [0u8, 1, 255] {
            let mut reader = BinaryReader::new(record(1, 2, 3, 4, 0, 0, Some([7; 8])));
            let entry = Entry::read(&mut reader, major, minor).unwrap();
            assert_eq!(entry.data_checksum(), &EntryDataChecksum::Absent);
        }
    }
}

#[test]
fn checksum_kind_is_chosen_by_the_version() {
    let checksum = [1u8, 2, 3, 4, 5, 6, 7, 8];
    let mut reader = BinaryReader::new(record(1, 2, 3, 4, 0, 0, Some(checksum)));
    let entry = Entry::read(&mut reader, 3, 1).unwrap();
    assert_eq!(entry.data_checksum(), &EntryDataChecksum::XxHash3(checksum.to_vec()));

    let mut reader = BinaryReader::new(record(1, 2, 3, 4, 0, 0, Some(checksum)));
    let entry = Entry::read(&mut reader, 3, 0).unwrap();
    assert_eq!(entry.data_checksum(), &EntryDataChecksum::Sha256(checksum.to_vec()));

    for (major, minor) in [(2u8, 0u8), (2, 1), (3, 2), (3, 255), (4, 1), (255, 1)] {
        let mut reader = BinaryReader::new(record(1, 2, 3, 4, 0, 0, Some(checksum)));
        let entry = Entry::read(&mut reader, major, minor).unwrap();
        assert_eq!(entry.data_checksum(), &EntryDataChecksum::Sha256(checksum.to_vec()));
    }
}

#[test]
fn checksum_kind_does_not_depend_on_the_bytes() {
    for checksum in [[0u8; 8], [0xff; 8], [1, 2, 3, 4, 5, 6, 7, 8]] {
        let mut reader = BinaryReader::new(record(1, 2, 3, 4, 0, 0, Some(checksum)));
        let entry = Entry::read(&mut reader, 3, 1).unwrap();
        assert!(matches!(entry.data_checksum(), EntryDataChecksum::XxHash3(bytes) if bytes[..] == checksum));

        let mut reader = BinaryReader::new(record(1, 2, 3, 4, 0, 0, Some(checksum)));
        let entry = Entry::read(&mut reader, 2, 1).unwrap();
        assert!(matches!(entry.data_checksum(), EntryDataChecksum::Sha256(bytes) if bytes[..] == checksum));
    }
}

#[test]
fn entry_is_read_from_where_the_reader_stands() {
    let mut bytes = vec![0xee; 5];
    bytes.extend_from_slice(&record(0x1122, 0x33, 0x44, 0x55, 1, 1, None));
    bytes.extend_from_slice(&[0xee; 3]);
    let mut reader = BinaryReader::new(bytes);
    reader.read_bytes(5).unwrap();
    let entry = Entry::read(&mut reader, 1, 0).unwrap();
    assert_eq!(entry.xxhash(), 0x1122);
    assert_eq!(entry.data_offset(), 0x33);
    assert_eq!(entry.compressed_size(), 0x44);
    assert_eq!(entry.uncompressed_size(), 0x55);
    assert_eq!(entry.data_format(), EntryDataFormat::GZip);
    assert_eq!(reader.position(), 29);
    assert_eq!(reader.remaining_len(), 3);
}

#[test]
fn format_from_a_number() {
    assert_eq!(EntryDataFormat::try_from(0u8), Ok(EntryDataFormat::Raw));
    assert_eq!(EntryDataFormat::try_from(1u8), Ok(EntryDataFormat::GZip));
    assert_eq!(EntryDataFormat::try_from(2u8), Ok(EntryDataFormat::FileRedirection));
    assert_eq!(EntryDataFormat::try_from(3u8), Ok(EntryDataFormat::Zstd));
    assert_eq!(EntryDataFormat::try_from(4u8), Ok(EntryDataFormat::Unknown));
    for number in 5..=255u8 {
        assert_eq!(EntryDataFormat::try_from(number), Err(number));
    }
}

#[test]
fn io_error_becomes_a_wad_error_unchanged() {
    let error = std::io::Error::new(ErrorKind::PermissionDenied, "no entry");
    match WadError::from(error) {
        WadError::IoError(inner) => {
            assert_eq!(inner.kind(), ErrorKind::PermissionDenied);
            assert_eq!(format!("{}", inner), "no entry");
        }
        other => panic!("{:?}", other),
    }
}
